use toolbridge::markup::{decode_message, Body, Message};
use toolbridge::wire::ManagerError;

#[test]
fn decode_text_element() {
    let m = decode_message(b"<status>A</status>").unwrap();
    assert_eq!(m, Message { tag: b"status".to_vec(), body: Body::Text(b"A".to_vec()) });
}

#[test]
fn decode_empty_element() {
    let m = decode_message(b"<x></x>").unwrap();
    assert_eq!(m, Message { tag: b"x".to_vec(), body: Body::Text(b"".to_vec()) });
}

#[test]
fn decode_surrounding_whitespace() {
    let m = decode_message(b"  <x>y z</x>\r\n").unwrap();
    assert_eq!(m, Message { tag: b"x".to_vec(), body: Body::Text(b"y z".to_vec()) });
}

fn text(tag: &[u8], t: &[u8]) -> Message {
    Message { tag: tag.to_vec(), body: Body::Text(t.to_vec()) }
}

#[test]
fn decode_children() {
    let m = decode_message(b"<root><a>1</a><b>two</b></root>").unwrap();
    assert_eq!(
        m,
        Message {
            tag: b"root".to_vec(),
            body: Body::Children(vec![text(b"a", b"1"), text(b"b", b"two")]),
        }
    );
}

#[test]
fn decode_nested_children() {
    let m = decode_message(b"<a><b><c>1</c><d>2</d></b><e>x</e></a>").unwrap();
    assert_eq!(
        m,
        Message {
            tag: b"a".to_vec(),
            body: Body::Children(vec![
                Message {
                    tag: b"b".to_vec(),
                    body: Body::Children(vec![text(b"c", b"1"), text(b"d", b"2")]),
                },
                text(b"e", b"x"),
            ]),
        }
    );
}

#[test]
fn decode_malformed_payloads() {
    let bad: Vec<&[u8]> = vec![
        b"",
        b"plain text",
        b"<a>1",
        b"<a>1</b>",
        b"<>x</>",
        b"<a>1</a>junk",
        b"<a><b>1</b>",
        b"<a><b>1</b></a>extra",
        b"<a></a></a>",
        b"<a><b><c>1</c></a></b>",
        b"</a>",
    ];
    for p in bad {
        assert_eq!(decode_message(p), Err(ManagerError::ConvertError));
    }
}
