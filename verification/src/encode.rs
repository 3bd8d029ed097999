//! Encoding of one outbound request line, and of the line the polling cycle
//! emits when a cycle produced fresh messages.
//!
//! Both are single lines of the braced key/value text encoding. String
//! content is escaped with the usual backslash escapes; the contract states
//! the exact bytes produced.

use vstd::prelude::*;

use crate::markup::{Body, BodyModel, Message, MessageModel};
use crate::scan::append_bytes;
use crate::wire::{Action, Channel, ToolRequest};

verus! {

/// The character that writes one hexadecimal digit, lower case.
pub open spec fn hex_char(v: int) -> u8 {
    if v < 10 {
        (48 + v) as u8
    } else {
        (87 + v) as u8
    }
}

/// How one byte of string content is written: escaped where the encoding
/// demands it — the named escapes, and the remaining control bytes as
/// four-digit code-point escapes — as itself otherwise.
pub open spec fn escape_one(b: u8) -> Seq<u8> {
    if b == '"' as u8 {
        seq!['\\' as u8, '"' as u8]
    } else if b == '\\' as u8 {
        seq!['\\' as u8, '\\' as u8]
    } else if b == 8 {
        seq!['\\' as u8, 'b' as u8]
    } else if b == 12 {
        seq!['\\' as u8, 'f' as u8]
    } else if b == 10 {
        seq!['\\' as u8, 'n' as u8]
    } else if b == 13 {
        seq!['\\' as u8, 'r' as u8]
    } else if b == 9 {
        seq!['\\' as u8, 't' as u8]
    } else if b < 0x20 {
        seq![
            '\\' as u8,
            'u' as u8,
            '0' as u8,
            '0' as u8,
            hex_char(b as int / 16),
            hex_char(b as int % 16),
        ]
    } else {
        seq![b]
    }
}

/// A byte string as written inside quotes.
pub open spec fn json_escape(p: Seq<u8>) -> Seq<u8>
    decreases p.len(),
{
    if p.len() == 0 {
        Seq::<u8>::empty()
    } else {
        json_escape(p.drop_last()) + escape_one(p.last())
    }
}

pub open spec fn lit_req_head() -> Seq<u8> {
    seq![
        '{' as u8, '"' as u8, 'a' as u8, 'c' as u8, 't' as u8, 'i' as u8, 'o' as u8, 'n' as u8,
        '"' as u8, ':' as u8, '"' as u8,
    ]
}

pub open spec fn lit_req_mid() -> Seq<u8> {
    seq![
        '"' as u8, ',' as u8, '"' as u8, 'c' as u8, 'h' as u8, 'a' as u8, 'n' as u8, 'n' as u8,
        'e' as u8, 'l' as u8, '"' as u8, ':' as u8, '"' as u8,
    ]
}

pub open spec fn lit_req_tail() -> Seq<u8> {
    seq![
        '"' as u8, ',' as u8, '"' as u8, 'p' as u8, 'a' as u8, 'y' as u8, 'l' as u8, 'o' as u8,
        'a' as u8, 'd' as u8, '"' as u8, ':' as u8,
    ]
}

pub open spec fn lit_null() -> Seq<u8> {
    seq!['n' as u8, 'u' as u8, 'l' as u8, 'l' as u8]
}

/// The exact bytes of one request line (without the trailing newline, which
/// the transport adds when writing).
pub open spec fn request_line(action: Action, channel: Channel, payload: Option<Seq<u8>>) -> Seq<
    u8,
> {
    lit_req_head() + action.wire_name() + lit_req_mid() + channel.wire_name() + lit_req_tail()
        + (match payload {
        None => lit_null(),
        Some(p) => seq!['"' as u8] + json_escape(p) + seq!['"' as u8],
    }) + seq!['}' as u8]
}

/// Append one byte of string content, escaped as the encoding demands.
fn push_escaped(out: &mut Vec<u8>, b: u8)
    ensures
        final(out)@ == old(out)@ + escape_one(b),
{
    if b == '"' as u8 || b == '\\' as u8 {
        out.push('\\' as u8);
        out.push(b);
    } else if b == 8 {
        out.push('\\' as u8);
        out.push('b' as u8);
    } else if b == 12 {
        out.push('\\' as u8);
        out.push('f' as u8);
    } else if b == 10 {
        out.push('\\' as u8);
        out.push('n' as u8);
    } else if b == 13 {
        out.push('\\' as u8);
        out.push('r' as u8);
    } else if b == 9 {
        out.push('\\' as u8);
        out.push('t' as u8);
    } else if b < 0x20 {
        out.push('\\' as u8);
        out.push('u' as u8);
        out.push('0' as u8);
        out.push('0' as u8);
        let hi = b / 16;
        let lo = b % 16;
        out.push(if hi < 10 {
            48 + hi
        } else {
            87 + hi
        });
        out.push(if lo < 10 {
            48 + lo
        } else {
            87 + lo
        });
    } else {
        out.push(b);
    }
    proof {
        assert(out@ =~= old(out)@ + escape_one(b));
    }
}

/// Append a byte string as quoted-string content.
fn append_escaped(out: &mut Vec<u8>, p: &[u8])
    ensures
        final(out)@ == old(out)@ + json_escape(p@),
{
    let n = p.len();
    let mut k: usize = 0;
    while k < n
        invariant
            n == p@.len(),
            k <= n,
            out@ == old(out)@ + json_escape(p@.subrange(0, k as int)),
        decreases n - k,
    {
        push_escaped(out, p[k]);
        proof {
            let pre = p@.subrange(0, k as int);
            let cur = p@.subrange(0, (k + 1) as int);
            assert(cur.drop_last() =~= pre);
            assert(cur.last() == p@[k as int]);
            assert(out@ =~= old(out)@ + json_escape(cur));
        }
        k = k + 1;
    }
    proof {
        assert(p@.subrange(0, n as int) =~= p@);
    }
}

/// Encode one request as its wire line.
pub fn encode_request(req: &ToolRequest) -> (out: Vec<u8>)
    ensures
        out@ == request_line(
            req.action,
            req.channel,
            match req.payload {
                Some(p) => Some(p@),
                None => None,
            },
        ),
{
    let mut out: Vec<u8> = vec![
        '{' as u8, '"' as u8, 'a' as u8, 'c' as u8, 't' as u8, 'i' as u8, 'o' as u8, 'n' as u8,
        '"' as u8, ':' as u8, '"' as u8,
    ];
    proof {
        assert(out@ =~= lit_req_head());
    }
    let an = req.action.wire_name_bytes();
    append_bytes(&mut out, an.as_slice());
    let mid: Vec<u8> = vec![
        '"' as u8, ',' as u8, '"' as u8, 'c' as u8, 'h' as u8, 'a' as u8, 'n' as u8, 'n' as u8,
        'e' as u8, 'l' as u8, '"' as u8, ':' as u8, '"' as u8,
    ];
    proof {
        assert(mid@ =~= lit_req_mid());
    }
    append_bytes(&mut out, mid.as_slice());
    let cn = req.channel.wire_name_bytes();
    append_bytes(&mut out, cn.as_slice());
    let tail: Vec<u8> = vec![
        '"' as u8, ',' as u8, '"' as u8, 'p' as u8, 'a' as u8, 'y' as u8, 'l' as u8, 'o' as u8,
        'a' as u8, 'd' as u8, '"' as u8, ':' as u8,
    ];
    proof {
        assert(tail@ =~= lit_req_tail());
    }
    append_bytes(&mut out, tail.as_slice());
    match &req.payload {
        None => {
            let nl: Vec<u8> = vec!['n' as u8, 'u' as u8, 'l' as u8, 'l' as u8];
            proof {
                assert(nl@ =~= lit_null());
            }
            append_bytes(&mut out, nl.as_slice());
        },
        Some(p) => {
            out.push('"' as u8);
            append_escaped(&mut out, p.as_slice());
            out.push('"' as u8);
        },
    }
    out.push('}' as u8);
    proof {
        assert(out@ =~= request_line(
            req.action,
            req.channel,
            match req.payload {
                Some(p) => Some(p@),
                None => None,
            },
        ));
    }
    out
}

/// One element, as written inside its parent's object: its tag as the key,
/// its body as the value.
pub open spec fn kid_json(m: MessageModel) -> Seq<u8>
    decreases m,
{
    seq!['"' as u8] + json_escape(m.tag) + seq!['"' as u8, ':' as u8] + body_json(m.body)
}

/// The children of an element, comma-separated.
pub open spec fn kids_json(kids: Seq<MessageModel>) -> Seq<u8>
    decreases kids,
{
    if kids.len() == 0 {
        Seq::<u8>::empty()
    } else if kids.len() == 1 {
        kid_json(kids[0])
    } else {
        kids_json(kids.drop_last()) + seq![',' as u8] + kid_json(kids.last())
    }
}

/// An element's body: its text as a string, or its children as an object.
pub open spec fn body_json(b: BodyModel) -> Seq<u8>
    decreases b,
{
    match b {
        BodyModel::Text(t) => seq!['"' as u8] + json_escape(t) + seq!['"' as u8],
        BodyModel::Children(kids) => seq!['{' as u8] + kids_json(kids) + seq!['}' as u8],
    }
}

/// A whole message: one object holding its root tag and body.
pub open spec fn message_json(m: MessageModel) -> Seq<u8> {
    seq!['{' as u8] + kid_json(m) + seq!['}' as u8]
}

/// One batch entry: the channel's wire name with its message.
pub open spec fn entry_json(p: (Channel, MessageModel)) -> Seq<u8> {
    seq!['"' as u8] + p.0.wire_name() + seq!['"' as u8, ':' as u8] + message_json(p.1)
}

/// The batch entries, comma-separated.
pub open spec fn entries_json(b: Seq<(Channel, MessageModel)>) -> Seq<u8>
    decreases b.len(),
{
    if b.len() == 0 {
        Seq::<u8>::empty()
    } else if b.len() == 1 {
        entry_json(b[0])
    } else {
        entries_json(b.drop_last()) + seq![',' as u8] + entry_json(b.last())
    }
}

/// The mathematical shape of a batch.
pub open spec fn batch_model(b: Seq<(Channel, Message)>) -> Seq<(Channel, MessageModel)> {
    b.map_values(|p: (Channel, Message)| (p.0, p.1.model()))
}

/// The exact bytes of the line a cycle emits: one object mapping each fresh
/// channel's wire name to its decoded message.
pub open spec fn batch_line(b: Seq<(Channel, MessageModel)>) -> Seq<u8> {
    seq!['{' as u8] + entries_json(b) + seq!['}' as u8]
}

/// Append one message as its object form.
/// Append one element as a key/value pair of its parent's object.
fn append_kid(out: &mut Vec<u8>, m: &Message)
    ensures
        final(out)@ == old(out)@ + kid_json(m.model()),
    decreases *m,
{
    out.push('"' as u8);
    append_escaped(out, m.tag.as_slice());
    out.push('"' as u8);
    out.push(':' as u8);
    match &m.body {
        Body::Text(t) => {
            out.push('"' as u8);
            append_escaped(out, t.as_slice());
            out.push('"' as u8);
        },
        Body::Children(kids) => {
            out.push('{' as u8);
            let ghost pre = out@;
            let ghost km = crate::markup::kids_models(kids@);
            let n = kids.len();
            let mut k: usize = 0;
            proof {
                crate::markup::lemma_kids_models_len(kids@);
                assert(km.subrange(0, 0) =~= Seq::<MessageModel>::empty());
                assert(out@ =~= pre + kids_json(km.subrange(0, 0)));
            }
            while k < n
                invariant
                    n == kids@.len(),
                    m.body == Body::Children(*kids),
                    km == crate::markup::kids_models(kids@),
                    km.len() == n,
                    k <= n,
                    out@ == pre + kids_json(km.subrange(0, k as int)),
                decreases n - k,
            {
                if k > 0 {
                    out.push(',' as u8);
                }
                proof {
                    broadcast use vstd::std_specs::vec::group_vec_axioms;

                    let ghost kv = *kids;
                    assert(decreases_to!(*m => m.body));
                    assert(decreases_to!(m.body => m.body->Children_0));
                    assert(m.body->Children_0 == kv);
                    assert(decreases_to!(kv => kv[k as int]));
                }
                append_kid(out, &kids[k]);
                proof {
                    crate::markup::lemma_kids_models_index(kids@, k as int);
                    let cur = km.subrange(0, (k + 1) as int);
                    assert(cur.drop_last() =~= km.subrange(0, k as int));
                    assert(cur.last() == km[k as int]);
                    assert(out@ =~= pre + kids_json(cur));
                }
                k = k + 1;
            }
            proof {
                assert(km.subrange(0, n as int) =~= km);
            }
            out.push('}' as u8);
        },
    }
    proof {
        assert(out@ =~= old(out)@ + kid_json(m.model()));
    }
}

/// Append one message as its object form.
fn append_message(out: &mut Vec<u8>, m: &Message)
    ensures
        final(out)@ == old(out)@ + message_json(m.model()),
{
    out.push('{' as u8);
    append_kid(out, m);
    out.push('}' as u8);
    proof {
        assert(out@ =~= old(out)@ + message_json(m.model()));
    }
}

/// Encode a non-empty cycle's batch as the one line it emits.
pub fn encode_batch(batch: &Vec<(Channel, Message)>) -> (out: Vec<u8>)
    ensures
        out@ == batch_line(batch_model(batch@)),
{
    let mut out: Vec<u8> = Vec::new();
    out.push('{' as u8);
    let ghost pre = out@;
    let ghost bm = batch_model(batch@);
    let n = batch.len();
    let mut k: usize = 0;
    proof {
        assert(bm.subrange(0, 0) =~= Seq::<(Channel, MessageModel)>::empty());
        assert(out@ =~= pre + entries_json(bm.subrange(0, 0)));
    }
    while k < n
        invariant
            n == batch@.len(),
            bm == batch_model(batch@),
            bm.len() == n,
            k <= n,
            out@ == pre + entries_json(bm.subrange(0, k as int)),
        decreases n - k,
    {
        if k > 0 {
            out.push(',' as u8);
        }
        out.push('"' as u8);
        let cn = batch[k].0.wire_name_bytes();
        append_bytes(&mut out, cn.as_slice());
        out.push('"' as u8);
        out.push(':' as u8);
        append_message(&mut out, &batch[k].1);
        proof {
            let cur = bm.subrange(0, (k + 1) as int);
            assert(cur.drop_last() =~= bm.subrange(0, k as int));
            assert(cur.last() == (batch@[k as int].0, batch@[k as int].1.model()));
            assert(out@ =~= pre + entries_json(cur));
        }
        k = k + 1;
    }
    proof {
        assert(bm.subrange(0, n as int) =~= bm);
    }
    out.push('}' as u8);
    proof {
        assert(out@ =~= batch_line(bm));
    }
    out
}

} // verus!
