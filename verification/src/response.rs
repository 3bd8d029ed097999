//! Decoding of one inbound response line.
//!
//! A response is a single line holding one object of a braced key/value text
//! encoding: at most the three keys `ok` (a boolean or `null`), `error` (a
//! string or `null`) and `data` (a string or `null`), in any order, each at
//! most once, with insignificant whitespace between tokens and around the
//! object. Strings are double-quoted with the usual backslash escapes,
//! including four-digit `\u` code-point escapes and surrogate pairs. The
//! schema is closed on purpose: a key outside the three, like a repeated
//! key, is a conversion failure — the child speaks this protocol alone, and
//! silently skipping an unknown key would hide a framing bug. A line that
//! does not have this shape is a conversion failure, never a panic.

use vstd::prelude::*;

use crate::scan::{skip_ws, skip_ws_x};
use crate::wire::{ManagerError, ResponseModel, ToolResponse};

verus! {

/// The escape letters accepted after a backslash inside a string.
pub open spec fn is_simple_escape(b: u8) -> bool {
    b == '"' as u8 || b == '\\' as u8 || b == '/' as u8 || b == 'b' as u8 || b == 'f' as u8
        || b == 'n' as u8 || b == 'r' as u8 || b == 't' as u8
}

/// The byte an escape letter stands for.
pub open spec fn unescape_byte(b: u8) -> u8 {
    if b == 'b' as u8 {
        8
    } else if b == 'f' as u8 {
        12
    } else if b == 'n' as u8 {
        10
    } else if b == 'r' as u8 {
        13
    } else if b == 't' as u8 {
        9
    } else {
        b
    }
}

/// The value of one hexadecimal digit, or 16 for any other byte.
pub open spec fn hex_digit(b: u8) -> int {
    if 48 <= b <= 57 {
        b - 48
    } else if 97 <= b <= 102 {
        b - 87
    } else if 65 <= b <= 70 {
        b - 55
    } else {
        16
    }
}

/// The value of four hexadecimal digits at `i`, or -1 where they are not
/// there.
pub open spec fn hex4(s: Seq<u8>, i: int) -> int {
    if 0 <= i && i + 4 <= s.len() && hex_digit(s[i]) < 16 && hex_digit(s[i + 1]) < 16 && hex_digit(
        s[i + 2],
    ) < 16 && hex_digit(s[i + 3]) < 16 {
        hex_digit(s[i]) * 4096 + hex_digit(s[i + 1]) * 256 + hex_digit(s[i + 2]) * 16 + hex_digit(
            s[i + 3],
        )
    } else {
        -1
    }
}

/// The bytes that encode one code point.
pub open spec fn utf8_enc(cp: int) -> Seq<u8> {
    if cp < 0x80 {
        seq![cp as u8]
    } else if cp < 0x800 {
        seq![(0xC0 + cp / 64) as u8, (0x80 + cp % 64) as u8]
    } else if cp < 0x10000 {
        seq![(0xE0 + cp / 4096) as u8, (0x80 + (cp / 64) % 64) as u8, (0x80 + cp % 64) as u8]
    } else {
        seq![
            (0xF0 + cp / 262144) as u8,
            (0x80 + (cp / 4096) % 64) as u8,
            (0x80 + (cp / 64) % 64) as u8,
            (0x80 + cp % 64) as u8,
        ]
    }
}

/// Parse the rest of a quoted string, `acc` holding the bytes decoded so far;
/// `i` stands just after the opening quote or after the last decoded unit.
/// Besides the simple escapes, a `\u` escape carries four hexadecimal digits
/// naming a code point, written out as its byte encoding; a high surrogate
/// must be followed by a `\u` low surrogate, the pair naming one code point.
/// Yields the decoded bytes and the position just after the closing quote.
pub open spec fn parse_jstring_body(s: Seq<u8>, i: int, acc: Seq<u8>) -> Option<(Seq<u8>, int)>
    decreases s.len() - i,
{
    if i < 0 || i >= s.len() {
        None
    } else if s[i] == '"' as u8 {
        Some((acc, i + 1))
    } else if s[i] == '\\' as u8 {
        if i + 1 < s.len() && is_simple_escape(s[i + 1]) {
            parse_jstring_body(s, i + 2, acc.push(unescape_byte(s[i + 1])))
        } else if i + 1 < s.len() && s[i + 1] == 'u' as u8 {
            let v = hex4(s, i + 2);
            if v < 0 {
                None
            } else if 0xD800 <= v < 0xDC00 {
                if i + 7 < s.len() && s[i + 6] == '\\' as u8 && s[i + 7] == 'u' as u8 {
                    let w = hex4(s, i + 8);
                    if 0xDC00 <= w < 0xE000 {
                        parse_jstring_body(
                            s,
                            i + 12,
                            acc + utf8_enc(0x10000 + (v - 0xD800) * 1024 + (w - 0xDC00)),
                        )
                    } else {
                        None
                    }
                } else {
                    None
                }
            } else if 0xDC00 <= v < 0xE000 {
                None
            } else {
                parse_jstring_body(s, i + 6, acc + utf8_enc(v))
            }
        } else {
            None
        }
    } else if s[i] >= 0x20 {
        parse_jstring_body(s, i + 1, acc.push(s[i]))
    } else {
        None
    }
}

/// Parse a quoted string whose opening quote stands at `i`.
pub open spec fn parse_jstring(s: Seq<u8>, i: int) -> Option<(Seq<u8>, int)> {
    if 0 <= i < s.len() && s[i] == '"' as u8 {
        parse_jstring_body(s, i + 1, Seq::<u8>::empty())
    } else {
        None
    }
}

pub open spec fn match_true(s: Seq<u8>, i: int) -> bool {
    0 <= i && i + 4 <= s.len() && s[i] == 't' as u8 && s[i + 1] == 'r' as u8 && s[i + 2]
        == 'u' as u8 && s[i + 3] == 'e' as u8
}

pub open spec fn match_false(s: Seq<u8>, i: int) -> bool {
    0 <= i && i + 5 <= s.len() && s[i] == 'f' as u8 && s[i + 1] == 'a' as u8 && s[i + 2]
        == 'l' as u8 && s[i + 3] == 's' as u8 && s[i + 4] == 'e' as u8
}

pub open spec fn match_null(s: Seq<u8>, i: int) -> bool {
    0 <= i && i + 4 <= s.len() && s[i] == 'n' as u8 && s[i + 1] == 'u' as u8 && s[i + 2]
        == 'l' as u8 && s[i + 3] == 'l' as u8
}

/// Parse the value of the `ok` key: a boolean, or `null` for "not given".
pub open spec fn parse_bool_or_null(s: Seq<u8>, i: int) -> Option<(Option<bool>, int)> {
    if match_true(s, i) {
        Some((Some(true), i + 4))
    } else if match_false(s, i) {
        Some((Some(false), i + 5))
    } else if match_null(s, i) {
        Some((None, i + 4))
    } else {
        None
    }
}

/// Parse the value of a string-valued key: a string, or `null` for "not given".
pub open spec fn parse_string_or_null(s: Seq<u8>, i: int) -> Option<(Option<Seq<u8>>, int)> {
    if match_null(s, i) {
        Some((None, i + 4))
    } else {
        match parse_jstring(s, i) {
            Some((cs, j)) => Some((Some(cs), j)),
            None => None,
        }
    }
}

pub open spec fn lit_ok() -> Seq<u8> {
    seq!['o' as u8, 'k' as u8]
}

pub open spec fn lit_error() -> Seq<u8> {
    seq!['e' as u8, 'r' as u8, 'r' as u8, 'o' as u8, 'r' as u8]
}

pub open spec fn lit_data() -> Seq<u8> {
    seq!['d' as u8, 'a' as u8, 't' as u8, 'a' as u8]
}

/// A response under construction: each field with a flag saying whether its
/// key was already seen, so that a repeated key is refused.
pub struct ResponseAcc {
    pub ok_seen: bool,
    pub ok: Option<bool>,
    pub error_seen: bool,
    pub error_msg: Option<Seq<u8>>,
    pub data_seen: bool,
    pub data: Option<Seq<u8>>,
}

pub open spec fn empty_acc() -> ResponseAcc {
    ResponseAcc {
        ok_seen: false,
        ok: None,
        error_seen: false,
        error_msg: None,
        data_seen: false,
        data: None,
    }
}

pub open spec fn acc_model(acc: ResponseAcc) -> ResponseModel {
    ResponseModel { ok: acc.ok, error_msg: acc.error_msg, data: acc.data }
}

/// Parse one `"key": value` pair starting at `i` and fold it into `acc`.
/// An unknown or repeated key is a parse failure.
pub open spec fn parse_member(s: Seq<u8>, i: int, acc: ResponseAcc) -> Option<(ResponseAcc, int)> {
    match parse_jstring(s, i) {
        None => None,
        Some((key, j)) => {
            let j2 = skip_ws(s, j);
            if j2 < s.len() && s[j2] == ':' as u8 {
                let j3 = skip_ws(s, j2 + 1);
                if key == lit_ok() {
                    if acc.ok_seen {
                        None
                    } else {
                        match parse_bool_or_null(s, j3) {
                            None => None,
                            Some((v, j4)) => Some(
                                (
                                    ResponseAcc {
                                        ok_seen: true,
                                        ok: v,
                                        error_seen: acc.error_seen,
                                        error_msg: acc.error_msg,
                                        data_seen: acc.data_seen,
                                        data: acc.data,
                                    },
                                    j4,
                                ),
                            ),
                        }
                    }
                } else if key == lit_error() {
                    if acc.error_seen {
                        None
                    } else {
                        match parse_string_or_null(s, j3) {
                            None => None,
                            Some((v, j4)) => Some(
                                (
                                    ResponseAcc {
                                        ok_seen: acc.ok_seen,
                                        ok: acc.ok,
                                        error_seen: true,
                                        error_msg: v,
                                        data_seen: acc.data_seen,
                                        data: acc.data,
                                    },
                                    j4,
                                ),
                            ),
                        }
                    }
                } else if key == lit_data() {
                    if acc.data_seen {
                        None
                    } else {
                        match parse_string_or_null(s, j3) {
                            None => None,
                            Some((v, j4)) => Some(
                                (
                                    ResponseAcc {
                                        ok_seen: acc.ok_seen,
                                        ok: acc.ok,
                                        error_seen: acc.error_seen,
                                        error_msg: acc.error_msg,
                                        data_seen: true,
                                        data: v,
                                    },
                                    j4,
                                ),
                            ),
                        }
                    }
                } else {
                    None
                }
            } else {
                None
            }
        },
    }
}

/// Parse a comma-separated run of key/value pairs. At most three distinct
/// keys exist, so `fuel` bounds the recursion; the caller hands enough for
/// every line the schema admits. Yields the folded pairs and the position of
/// the first byte after them, whitespace skipped.
pub open spec fn parse_members(s: Seq<u8>, i: int, acc: ResponseAcc, fuel: nat) -> Option<
    (ResponseAcc, int),
>
    decreases fuel,
{
    match parse_member(s, i, acc) {
        None => None,
        Some((acc2, j)) => {
            let j2 = skip_ws(s, j);
            if j2 < s.len() && s[j2] == ',' as u8 {
                if fuel == 0 {
                    None
                } else {
                    parse_members(s, skip_ws(s, j2 + 1), acc2, (fuel - 1) as nat)
                }
            } else {
                Some((acc2, j2))
            }
        },
    }
}

/// The whole line: one braced object, possibly empty, surrounded by
/// whitespace and nothing else.
pub open spec fn parse_response(s: Seq<u8>) -> Option<ResponseModel> {
    let i = skip_ws(s, 0);
    if i < s.len() && s[i] == '{' as u8 {
        let j = skip_ws(s, i + 1);
        if j < s.len() && s[j] == '}' as u8 {
            if skip_ws(s, j + 1) == s.len() {
                Some(acc_model(empty_acc()))
            } else {
                None
            }
        } else {
            match parse_members(s, j, empty_acc(), 3) {
                None => None,
                Some((acc, k)) => {
                    if k < s.len() && s[k] == '}' as u8 {
                        if skip_ws(s, k + 1) == s.len() {
                            Some(acc_model(acc))
                        } else {
                            None
                        }
                    } else {
                        None
                    }
                },
            }
        }
    } else {
        None
    }
}

/// Exec twin of `ResponseAcc`.
struct Acc {
    ok_seen: bool,
    ok: Option<bool>,
    error_seen: bool,
    error_msg: Option<Vec<u8>>,
    data_seen: bool,
    data: Option<Vec<u8>>,
}

impl Acc {
    spec fn model(self) -> ResponseAcc {
        ResponseAcc {
            ok_seen: self.ok_seen,
            ok: self.ok,
            error_seen: self.error_seen,
            error_msg: match self.error_msg {
                Some(v) => Some(v@),
                None => None,
            },
            data_seen: self.data_seen,
            data: match self.data {
                Some(v) => Some(v@),
                None => None,
            },
        }
    }
}

/// The value of one hexadecimal digit, or 16 for any other byte.
fn hex_digit_x(b: u8) -> (v: u8)
    ensures
        v as int == hex_digit(b),
{
    if b >= 48 && b <= 57 {
        b - 48
    } else if b >= 97 && b <= 102 {
        b - 87
    } else if b >= 65 && b <= 70 {
        b - 55
    } else {
        16
    }
}

/// The value of four hexadecimal digits at `i`, if they are there.
fn hex4_x(s: &[u8], i: usize) -> (r: Option<u16>)
    requires
        i <= s@.len(),
    ensures
        r is Some <==> hex4(s@, i as int) >= 0,
        r matches Some(v) ==> v as int == hex4(s@, i as int),
{
    if s.len() - i < 4 {
        return None;
    }
    let d0 = hex_digit_x(s[i]);
    let d1 = hex_digit_x(s[i + 1]);
    let d2 = hex_digit_x(s[i + 2]);
    let d3 = hex_digit_x(s[i + 3]);
    if d0 < 16 && d1 < 16 && d2 < 16 && d3 < 16 {
        Some((d0 as u16) * 4096 + (d1 as u16) * 256 + (d2 as u16) * 16 + (d3 as u16))
    } else {
        None
    }
}

/// Append the byte encoding of one code point.
fn push_utf8(out: &mut Vec<u8>, cp: u32)
    requires
        cp < 0x110000,
    ensures
        final(out)@ == old(out)@ + utf8_enc(cp as int),
{
    if cp < 0x80 {
        out.push(cp as u8);
    } else if cp < 0x800 {
        out.push((0xC0 + cp / 64) as u8);
        out.push((0x80 + cp % 64) as u8);
    } else if cp < 0x10000 {
        out.push((0xE0 + cp / 4096) as u8);
        out.push((0x80 + (cp / 64) % 64) as u8);
        out.push((0x80 + cp % 64) as u8);
    } else {
        out.push((0xF0 + cp / 262144) as u8);
        out.push((0x80 + (cp / 4096) % 64) as u8);
        out.push((0x80 + (cp / 64) % 64) as u8);
        out.push((0x80 + cp % 64) as u8);
    }
    proof {
        assert(out@ =~= old(out)@ + utf8_enc(cp as int));
    }
}

/// Parse a quoted string at `i`.
fn parse_jstring_x(s: &[u8], i: usize) -> (r: Option<(Vec<u8>, usize)>)
    requires
        i <= s@.len(),
    ensures
        r is Some <==> parse_jstring(s@, i as int) is Some,
        r matches Some(p) ==> parse_jstring(s@, i as int) == Some((p.0@, p.1 as int)) && i < p.1
            <= s@.len(),
{
    if i >= s.len() || s[i] != '"' as u8 {
        return None;
    }
    let mut acc: Vec<u8> = Vec::new();
    let mut j: usize = i + 1;
    loop
        invariant
            i + 1 <= j <= s@.len(),
            parse_jstring_body(s@, (i + 1) as int, Seq::<u8>::empty()) == parse_jstring_body(
                s@,
                j as int,
                acc@,
            ),
            0 <= i < s@.len(),
            s@[i as int] == '"' as u8,
        decreases s@.len() - j,
    {
        if j >= s.len() {
            return None;
        }
        let b = s[j];
        if b == '"' as u8 {
            return Some((acc, j + 1));
        } else if b == '\\' as u8 {
            if j + 1 < s.len() {
                let e = s[j + 1];
                if e == '"' as u8 || e == '\\' as u8 || e == '/' as u8 || e == 'b' as u8 || e
                    == 'f' as u8 || e == 'n' as u8 || e == 'r' as u8 || e == 't' as u8 {
                    let d: u8 = if e == 'b' as u8 {
                        8
                    } else if e == 'f' as u8 {
                        12
                    } else if e == 'n' as u8 {
                        10
                    } else if e == 'r' as u8 {
                        13
                    } else if e == 't' as u8 {
                        9
                    } else {
                        e
                    };
                    acc.push(d);
                    j = j + 2;
                } else if e == 'u' as u8 {
                    let v = match hex4_x(s, j + 2) {
                        Some(v) => v,
                        None => {
                            return None;
                        },
                    };
                    if v >= 0xD800 && v < 0xDC00 {
                        if !(s.len() - j > 7 && s[j + 6] == '\\' as u8 && s[j + 7] == 'u' as u8) {
                            return None;
                        }
                        let w = match hex4_x(s, j + 8) {
                            Some(w) => w,
                            None => {
                                return None;
                            },
                        };
                        if !(w >= 0xDC00 && w < 0xE000) {
                            return None;
                        }
                        let cp: u32 = 0x10000 + ((v as u32) - 0xD800) * 1024 + ((w as u32)
                            - 0xDC00);
                        push_utf8(&mut acc, cp);
                        j = j + 12;
                    } else if v >= 0xDC00 && v < 0xE000 {
                        return None;
                    } else {
                        push_utf8(&mut acc, v as u32);
                        j = j + 6;
                    }
                } else {
                    return None;
                }
            } else {
                return None;
            }
        } else if b >= 0x20 {
            acc.push(b);
            j = j + 1;
        } else {
            return None;
        }
    }
}

/// Parse `true`, `false` or `null` at `i`.
fn parse_bool_or_null_x(s: &[u8], i: usize) -> (r: Option<(Option<bool>, usize)>)
    requires
        i <= s@.len(),
    ensures
        r is Some <==> parse_bool_or_null(s@, i as int) is Some,
        r matches Some(p) ==> parse_bool_or_null(s@, i as int) == Some((p.0, p.1 as int)) && p.1
            <= s@.len(),
{
    let rem = s.len() - i;
    if rem >= 4 && s[i] == 't' as u8 && s[i + 1] == 'r' as u8 && s[i + 2] == 'u' as u8 && s[i + 3]
        == 'e' as u8 {
        Some((Some(true), i + 4))
    } else if rem >= 5 && s[i] == 'f' as u8 && s[i + 1] == 'a' as u8 && s[i + 2] == 'l' as u8 && s[i
        + 3] == 's' as u8 && s[i + 4] == 'e' as u8 {
        Some((Some(false), i + 5))
    } else if rem >= 4 && s[i] == 'n' as u8 && s[i + 1] == 'u' as u8 && s[i + 2] == 'l' as u8 && s[i
        + 3] == 'l' as u8 {
        Some((None, i + 4))
    } else {
        None
    }
}

/// Parse a string or `null` at `i`.
fn parse_string_or_null_x(s: &[u8], i: usize) -> (r: Option<(Option<Vec<u8>>, usize)>)
    requires
        i <= s@.len(),
    ensures
        r is Some <==> parse_string_or_null(s@, i as int) is Some,
        r matches Some(p) ==> parse_string_or_null(s@, i as int) == Some(
            (
                match p.0 {
                    Some(v) => Some(v@),
                    None => None,
                },
                p.1 as int,
            ),
        ) && p.1 <= s@.len(),
{
    let rem = s.len() - i;
    if rem >= 4 && s[i] == 'n' as u8 && s[i + 1] == 'u' as u8 && s[i + 2] == 'l' as u8 && s[i + 3]
        == 'l' as u8 {
        return Some((None, i + 4));
    }
    proof {
        assert(!match_null(s@, i as int));
    }
    match parse_jstring_x(s, i) {
        Some((v, j)) => Some((Some(v), j)),
        None => None,
    }
}

/// Parse one key/value pair at `i` and fold it into `acc`.
fn parse_member_x(s: &[u8], i: usize, acc: Acc) -> (r: Option<(Acc, usize)>)
    requires
        i <= s@.len(),
    ensures
        r is Some <==> parse_member(s@, i as int, acc.model()) is Some,
        r matches Some(p) ==> parse_member(s@, i as int, acc.model()) == Some(
            (p.0.model(), p.1 as int),
        ) && p.1 <= s@.len(),
{
    let (key, j) = match parse_jstring_x(s, i) {
        Some(p) => p,
        None => {
            return None;
        },
    };
    let j2 = skip_ws_x(s, j);
    if !(j2 < s.len() && s[j2] == ':' as u8) {
        return None;
    }
    let j3 = skip_ws_x(s, j2 + 1);
    proof {
        crate::scan::lemma_skip_ws_bounds(s@, (j2 + 1) as int);
    }
    let is_ok_key = key.len() == 2 && key[0] == 'o' as u8 && key[1] == 'k' as u8;
    let is_error_key = key.len() == 5 && key[0] == 'e' as u8 && key[1] == 'r' as u8 && key[2]
        == 'r' as u8 && key[3] == 'o' as u8 && key[4] == 'r' as u8;
    let is_data_key = key.len() == 4 && key[0] == 'd' as u8 && key[1] == 'a' as u8 && key[2]
        == 't' as u8 && key[3] == 'a' as u8;
    proof {
        assert(is_ok_key == (key@ =~= lit_ok()));
        assert(is_error_key == (key@ =~= lit_error()));
        assert(is_data_key == (key@ =~= lit_data()));
    }
    if is_ok_key {
        if acc.ok_seen {
            None
        } else {
            match parse_bool_or_null_x(s, j3) {
                None => None,
                Some((v, j4)) => Some(
                    (
                        Acc {
                            ok_seen: true,
                            ok: v,
                            error_seen: acc.error_seen,
                            error_msg: acc.error_msg,
                            data_seen: acc.data_seen,
                            data: acc.data,
                        },
                        j4,
                    ),
                ),
            }
        }
    } else if is_error_key {
        if acc.error_seen {
            None
        } else {
            match parse_string_or_null_x(s, j3) {
                None => None,
                Some((v, j4)) => Some(
                    (
                        Acc {
                            ok_seen: acc.ok_seen,
                            ok: acc.ok,
                            error_seen: true,
                            error_msg: v,
                            data_seen: acc.data_seen,
                            data: acc.data,
                        },
                        j4,
                    ),
                ),
            }
        }
    } else if is_data_key {
        if acc.data_seen {
            None
        } else {
            match parse_string_or_null_x(s, j3) {
                None => None,
                Some((v, j4)) => Some(
                    (
                        Acc {
                            ok_seen: acc.ok_seen,
                            ok: acc.ok,
                            error_seen: acc.error_seen,
                            error_msg: acc.error_msg,
                            data_seen: true,
                            data: v,
                        },
                        j4,
                    ),
                ),
            }
        }
    } else {
        None
    }
}

/// Parse a comma-separated run of key/value pairs, as the spec does.
fn parse_members_x(s: &[u8], i: usize, acc: Acc, fuel: usize) -> (r: Option<(Acc, usize)>)
    requires
        i <= s@.len(),
    ensures
        r is Some <==> parse_members(s@, i as int, acc.model(), fuel as nat) is Some,
        r matches Some(p) ==> parse_members(s@, i as int, acc.model(), fuel as nat) == Some(
            (p.0.model(), p.1 as int),
        ) && p.1 <= s@.len(),
    decreases fuel,
{
    let (acc2, j) = match parse_member_x(s, i, acc) {
        Some(p) => p,
        None => {
            return None;
        },
    };
    let j2 = skip_ws_x(s, j);
    if j2 < s.len() && s[j2] == ',' as u8 {
        if fuel == 0 {
            None
        } else {
            let j3 = skip_ws_x(s, j2 + 1);
            proof {
                crate::scan::lemma_skip_ws_bounds(s@, (j2 + 1) as int);
            }
            parse_members_x(s, j3, acc2, fuel - 1)
        }
    } else {
        Some((acc2, j2))
    }
}

/// Decode one response line.
///
/// Succeeds exactly on the lines the grammar admits, and then returns the
/// structurally matching response; every other line is a conversion failure.
pub fn decode_response(line: &[u8]) -> (r: Result<ToolResponse, ManagerError>)
    ensures
        r is Ok <==> parse_response(line@) is Some,
        r matches Ok(resp) ==> parse_response(line@) == Some(resp.model()),
        r matches Err(e) ==> e == ManagerError::ConvertError,
{
    let i = skip_ws_x(line, 0);
    if !(i < line.len() && line[i] == '{' as u8) {
        return Err(ManagerError::ConvertError);
    }
    let j = skip_ws_x(line, i + 1);
    if j < line.len() && line[j] == '}' as u8 {
        let e = skip_ws_x(line, j + 1);
        if e == line.len() {
            return Ok(ToolResponse { ok: None, error_msg: None, data: None });
        } else {
            return Err(ManagerError::ConvertError);
        }
    }
    let acc0 = Acc {
        ok_seen: false,
        ok: None,
        error_seen: false,
        error_msg: None,
        data_seen: false,
        data: None,
    };
    proof {
        assert(acc0.model() == empty_acc());
    }
    match parse_members_x(line, j, acc0, 3) {
        None => Err(ManagerError::ConvertError),
        Some((acc, k)) => {
            if k < line.len() && line[k] == '}' as u8 {
                let e = skip_ws_x(line, k + 1);
                if e == line.len() {
                    let resp = ToolResponse {
                        ok: acc.ok,
                        error_msg: acc.error_msg,
                        data: acc.data,
                    };
                    proof {
                        assert(resp.model() == acc_model(acc.model()));
                    }
                    Ok(resp)
                } else {
                    Err(ManagerError::ConvertError)
                }
            } else {
                Err(ManagerError::ConvertError)
            }
        },
    }
}

} // verus!
