//! Decoding of a channel's raw payload: a small tag-based markup document.
//!
//! A payload is one root element, `<tag>` ... `</tag>`, surrounded by
//! optional whitespace. An element holds either raw text (any bytes up to
//! the next `<`) or a run of child elements written back to back, nested to
//! any depth. Tag names are runs of bytes other than `<`, `>`, `/` and
//! whitespace. Anything else — mismatched tags, trailing bytes — is a
//! conversion failure, never a panic.

use vstd::prelude::*;

use crate::scan::{is_ws, skip_ws, skip_ws_x};
use crate::wire::ManagerError;

verus! {

/// The decoded form of an element: its tag and what it held.
#[derive(Debug, PartialEq, Eq)]
pub struct Message {
    pub tag: Vec<u8>,
    pub body: Body,
}

#[derive(Debug, PartialEq, Eq)]
pub enum Body {
    /// The element held raw text (possibly empty).
    Text(Vec<u8>),
    /// The element held child elements.
    Children(Vec<Message>),
}

/// The mathematical shape of a decoded element.
pub struct MessageModel {
    pub tag: Seq<u8>,
    pub body: BodyModel,
}

pub enum BodyModel {
    Text(Seq<u8>),
    Children(Seq<MessageModel>),
}

impl Message {
    pub open spec fn model(self) -> MessageModel
        decreases self,
    {
        MessageModel {
            tag: self.tag@,
            body: match self.body {
                Body::Text(t) => BodyModel::Text(t@),
                Body::Children(kids) => BodyModel::Children(kids_models(kids@)),
            },
        }
    }
}

/// The models of a run of elements, in order.
pub open spec fn kids_models(kids: Seq<Message>) -> Seq<MessageModel>
    decreases kids,
{
    if kids.len() == 0 {
        Seq::<MessageModel>::empty()
    } else {
        seq![kids[0].model()] + kids_models(kids.drop_first())
    }
}

pub proof fn lemma_kids_models_len(kids: Seq<Message>)
    ensures
        kids_models(kids).len() == kids.len(),
    decreases kids,
{
    if kids.len() > 0 {
        lemma_kids_models_len(kids.drop_first());
    }
}

pub proof fn lemma_kids_models_index(kids: Seq<Message>, i: int)
    requires
        0 <= i < kids.len(),
    ensures
        kids_models(kids).len() == kids.len(),
        kids_models(kids)[i] == kids[i].model(),
    decreases kids,
{
    lemma_kids_models_len(kids);
    if i > 0 {
        lemma_kids_models_index(kids.drop_first(), i - 1);
    }
}

pub proof fn lemma_kids_models_push(kids: Seq<Message>, m: Message)
    ensures
        kids_models(kids.push(m)) == kids_models(kids).push(m.model()),
    decreases kids,
{
    lemma_kids_models_len(kids);
    lemma_kids_models_len(kids.push(m));
    assert(kids.push(m)[0] == if kids.len() == 0 {
        m
    } else {
        kids[0]
    });
    if kids.len() == 0 {
        assert(kids.push(m).drop_first() =~= Seq::<Message>::empty());
        assert(kids_models(kids.push(m)) =~= kids_models(kids).push(m.model()));
    } else {
        assert(kids.push(m).drop_first() =~= kids.drop_first().push(m));
        lemma_kids_models_push(kids.drop_first(), m);
        lemma_kids_models_len(kids.drop_first());
        assert(kids_models(kids.push(m)) == seq![kids[0].model()] + kids_models(
            kids.drop_first().push(m),
        ));
        assert(kids_models(kids.push(m)) =~= kids_models(kids).push(m.model()));
    }
}

/// A byte a tag name may hold.
pub open spec fn name_byte(b: u8) -> bool {
    b != '<' as u8 && b != '>' as u8 && b != '/' as u8 && !is_ws(b)
}

/// Parse the rest of a tag name, `acc` holding the bytes read so far; a name
/// must not be empty. Yields the name and the position after it.
pub open spec fn parse_name_body(s: Seq<u8>, i: int, acc: Seq<u8>) -> Option<(Seq<u8>, int)>
    decreases s.len() - i,
{
    if 0 <= i < s.len() && name_byte(s[i]) {
        parse_name_body(s, i + 1, acc.push(s[i]))
    } else if acc.len() > 0 {
        Some((acc, i))
    } else {
        None
    }
}

pub open spec fn parse_name(s: Seq<u8>, i: int) -> Option<(Seq<u8>, int)> {
    parse_name_body(s, i, Seq::<u8>::empty())
}

/// Read raw text up to the next `<` or the end of input; always succeeds.
pub open spec fn parse_text(s: Seq<u8>, i: int, acc: Seq<u8>) -> (Seq<u8>, int)
    decreases s.len() - i,
{
    if 0 <= i < s.len() && s[i] != '<' as u8 {
        parse_text(s, i + 1, acc.push(s[i]))
    } else {
        (acc, i)
    }
}

/// Whether `</name>` stands at `i`.
pub open spec fn match_close(s: Seq<u8>, i: int, name: Seq<u8>) -> bool {
    &&& 0 <= i
    &&& i + name.len() + 3 <= s.len()
    &&& s[i] == '<' as u8
    &&& s[i + 1] == '/' as u8
    &&& (forall|k: int| 0 <= k < name.len() ==> s[i + 2 + k] == name[k])
    &&& s[i + 2 + name.len()] == '>' as u8
}

/// The position just after `</name>` at `i`.
pub open spec fn close_end(i: int, name: Seq<u8>) -> int {
    i + name.len() + 3
}

/// Whether an element opens at `i`: a `<` not followed by `/`.
pub open spec fn child_opens(s: Seq<u8>, i: int) -> bool {
    0 <= i < s.len() && s[i] == '<' as u8 && i + 1 < s.len() && s[i + 1] != '/' as u8
}

/// Parse one element at `i`: `<name>`, then raw text or a run of child
/// elements, then `</name>`. Each step consumes input, so `fuel` bounds the
/// mutual recursion; the caller hands the input's length, which is always
/// enough.
pub open spec fn parse_element(s: Seq<u8>, i: int, fuel: nat) -> Option<(MessageModel, int)>
    decreases fuel,
{
    if fuel == 0 {
        None
    } else if 0 <= i < s.len() && s[i] == '<' as u8 {
        match parse_name(s, i + 1) {
            None => None,
            Some((nm, j)) => {
                if j < s.len() && s[j] == '>' as u8 {
                    if child_opens(s, j + 1) {
                        match parse_elements(s, j + 1, Seq::empty(), (fuel - 1) as nat) {
                            None => None,
                            Some((kids, k)) => {
                                if match_close(s, k, nm) {
                                    Some(
                                        (
                                            MessageModel {
                                                tag: nm,
                                                body: BodyModel::Children(kids),
                                            },
                                            close_end(k, nm),
                                        ),
                                    )
                                } else {
                                    None
                                }
                            },
                        }
                    } else {
                        let (txt, k) = parse_text(s, j + 1, Seq::<u8>::empty());
                        if match_close(s, k, nm) {
                            Some(
                                (
                                    MessageModel { tag: nm, body: BodyModel::Text(txt) },
                                    close_end(k, nm),
                                ),
                            )
                        } else {
                            None
                        }
                    }
                } else {
                    None
                }
            },
        }
    } else {
        None
    }
}

/// Parse a back-to-back run of elements.
pub open spec fn parse_elements(
    s: Seq<u8>,
    i: int,
    acc: Seq<MessageModel>,
    fuel: nat,
) -> Option<(Seq<MessageModel>, int)>
    decreases fuel,
{
    if fuel == 0 {
        None
    } else {
        match parse_element(s, i, (fuel - 1) as nat) {
            None => None,
            Some((m, j)) => {
                let acc2 = acc.push(m);
                if child_opens(s, j) {
                    parse_elements(s, j, acc2, (fuel - 1) as nat)
                } else {
                    Some((acc2, j))
                }
            },
        }
    }
}

/// The whole payload: one root element surrounded by whitespace and nothing
/// else.
pub open spec fn parse_message(s: Seq<u8>) -> Option<MessageModel> {
    let i = skip_ws(s, 0);
    match parse_element(s, i, s.len() as nat) {
        None => None,
        Some((m, k)) => {
            if skip_ws(s, k) == s.len() {
                Some(m)
            } else {
                None
            }
        },
    }
}

/// Parse a tag name at `i`.
fn parse_name_x(s: &[u8], i: usize) -> (r: Option<(Vec<u8>, usize)>)
    requires
        i <= s@.len(),
    ensures
        r is Some <==> parse_name(s@, i as int) is Some,
        r matches Some(p) ==> parse_name(s@, i as int) == Some((p.0@, p.1 as int)) && i <= p.1
            <= s@.len(),
{
    let mut acc: Vec<u8> = Vec::new();
    let mut j: usize = i;
    loop
        invariant
            i <= j <= s@.len(),
            parse_name_body(s@, i as int, Seq::<u8>::empty()) == parse_name_body(
                s@,
                j as int,
                acc@,
            ),
        ensures
            i <= j <= s@.len(),
            parse_name_body(s@, i as int, Seq::<u8>::empty()) == parse_name_body(
                s@,
                j as int,
                acc@,
            ),
            j == s@.len() || !name_byte(s@[j as int]),
        decreases s@.len() - j,
    {
        if j < s.len() {
            let b = s[j];
            if b != '<' as u8 && b != '>' as u8 && b != '/' as u8 && b != 32 && b != 9 && b != 10
                && b != 13 {
                acc.push(b);
                j = j + 1;
            } else {
                break;
            }
        } else {
            break;
        }
    }
    if acc.len() > 0 {
        Some((acc, j))
    } else {
        None
    }
}

/// Read raw text at `i`.
fn parse_text_x(s: &[u8], i: usize) -> (r: (Vec<u8>, usize))
    requires
        i <= s@.len(),
    ensures
        parse_text(s@, i as int, Seq::<u8>::empty()) == (r.0@, r.1 as int),
        i <= r.1 <= s@.len(),
        r.1 == s@.len() || s@[r.1 as int] == '<' as u8,
{
    let mut acc: Vec<u8> = Vec::new();
    let mut j: usize = i;
    loop
        invariant
            i <= j <= s@.len(),
            parse_text(s@, i as int, Seq::<u8>::empty()) == parse_text(s@, j as int, acc@),
        ensures
            i <= j <= s@.len(),
            parse_text(s@, i as int, Seq::<u8>::empty()) == parse_text(s@, j as int, acc@),
            j == s@.len() || s@[j as int] == '<' as u8,
        decreases s@.len() - j,
    {
        if j < s.len() {
            let b = s[j];
            if b != '<' as u8 {
                acc.push(b);
                j = j + 1;
            } else {
                break;
            }
        } else {
            break;
        }
    }
    (acc, j)
}

/// Whether `</name>` stands at `i`; if so, also its end position.
fn match_close_x(s: &[u8], i: usize, name: &[u8]) -> (r: Option<usize>)
    requires
        i <= s@.len(),
    ensures
        r is Some <==> match_close(s@, i as int, name@),
        r matches Some(e) ==> e as int == close_end(i as int, name@) && e <= s@.len(),
{
    let n = name.len();
    if s.len() - i < 3 || s.len() - i - 3 < n {
        proof {
            assert(!match_close(s@, i as int, name@));
        }
        return None;
    }
    if s[i] != '<' as u8 || s[i + 1] != '/' as u8 {
        return None;
    }
    let mut k: usize = 0;
    while k < n
        invariant
            n == name@.len(),
            i + n + 3 <= s@.len(),
            s@.len() <= usize::MAX,
            k <= n,
            forall|t: int| 0 <= t < k ==> s@[i + 2 + t] == name@[t],
        decreases n - k,
    {
        if s[i + 2 + k] != name[k] {
            return None;
        }
        k = k + 1;
    }
    if s[i + 2 + n] != '>' as u8 {
        return None;
    }
    Some(i + n + 3)
}

/// Parse one element at `i`, as the spec does.
fn parse_element_x(s: &[u8], i: usize, fuel: usize) -> (r: Option<(Message, usize)>)
    requires
        i <= s@.len(),
    ensures
        r is Some <==> parse_element(s@, i as int, fuel as nat) is Some,
        r matches Some(p) ==> parse_element(s@, i as int, fuel as nat) == Some(
            (p.0.model(), p.1 as int),
        ) && i < p.1 <= s@.len(),
    decreases fuel,
{
    if fuel == 0 {
        return None;
    }
    if !(i < s.len() && s[i] == '<' as u8) {
        return None;
    }
    let (nm, j) = match parse_name_x(s, i + 1) {
        Some(p) => p,
        None => {
            return None;
        },
    };
    if !(j < s.len() && s[j] == '>' as u8) {
        return None;
    }
    let opens = j + 1 < s.len() && s[j + 1] == '<' as u8 && j + 2 < s.len() && s[j + 2]
        != '/' as u8;
    if opens {
        let (kids, k) = match parse_elements_x(s, j + 1, fuel - 1) {
            Some(p) => p,
            None => {
                return None;
            },
        };
        match match_close_x(s, k, nm.as_slice()) {
            Some(e) => Some((Message { tag: nm, body: Body::Children(kids) }, e)),
            None => None,
        }
    } else {
        let (txt, k) = parse_text_x(s, j + 1);
        match match_close_x(s, k, nm.as_slice()) {
            Some(e) => Some((Message { tag: nm, body: Body::Text(txt) }, e)),
            None => None,
        }
    }
}

/// Parse a run of elements at `i`, as the spec does.
fn parse_elements_x(s: &[u8], i: usize, fuel: usize) -> (r: Option<(Vec<Message>, usize)>)
    requires
        i <= s@.len(),
    ensures
        r is Some <==> parse_elements(s@, i as int, Seq::empty(), fuel as nat) is Some,
        r matches Some(p) ==> parse_elements(s@, i as int, Seq::empty(), fuel as nat) == Some(
            (kids_models(p.0@), p.1 as int),
        ) && i < p.1 <= s@.len(),
    decreases fuel,
{
    let mut acc: Vec<Message> = Vec::new();
    let mut j: usize = i;
    let mut f: usize = fuel;
    proof {
        assert(kids_models(acc@) =~= Seq::<MessageModel>::empty());
    }
    loop
        invariant
            i <= j <= s@.len(),
            f <= fuel,
            parse_elements(s@, i as int, Seq::empty(), fuel as nat) == parse_elements(
                s@,
                j as int,
                kids_models(acc@),
                f as nat,
            ),
        decreases f,
    {
        if f == 0 {
            return None;
        }
        let (m, j2) = match parse_element_x(s, j, f - 1) {
            Some(q) => q,
            None => {
                return None;
            },
        };
        proof {
            lemma_kids_models_push(acc@, m);
        }
        acc.push(m);
        j = j2;
        f = f - 1;
        let opens = j < s.len() && s[j] == '<' as u8 && j + 1 < s.len() && s[j + 1] != '/' as u8;
        if !opens {
            return Some((acc, j));
        }
    }
}

/// Decode one payload.
///
/// Succeeds exactly on the documents the grammar admits, and then returns the
/// structurally matching message; every other payload is a conversion
/// failure.
pub fn decode_message(payload: &[u8]) -> (r: Result<Message, ManagerError>)
    ensures
        r is Ok <==> parse_message(payload@) is Some,
        r matches Ok(m) ==> parse_message(payload@) == Some(m.model()),
        r matches Err(e) ==> e == ManagerError::ConvertError,
{
    let s = payload;
    let i = skip_ws_x(s, 0);
    match parse_element_x(s, i, s.len()) {
        None => Err(ManagerError::ConvertError),
        Some((m, k)) => {
            let t = skip_ws_x(s, k);
            if t == s.len() {
                Ok(m)
            } else {
                Err(ManagerError::ConvertError)
            }
        },
    }
}

} // verus!
