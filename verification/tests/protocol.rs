use toolbridge::encode::{encode_batch, encode_request};
use toolbridge::markup::{Body, Message};
use toolbridge::response::decode_response;
use toolbridge::wire::{Action, Channel, ManagerError, ToolRequest, ToolResponse};

fn req(action: Action, channel: Channel, payload: Option<&[u8]>) -> ToolRequest {
    ToolRequest { action, channel, payload: payload.map(|p| p.to_vec()) }
}

#[test]
fn encode_view_app_status() {
    let r = req(Action::View, Channel::AppStatus, None);
    assert_eq!(
        encode_request(&r),
        b"{\"action\":\"view\",\"channel\":\"app_status\",\"payload\":null}".to_vec()
    );
}

#[test]
fn encode_receive_heartbeat() {
    let r = req(Action::Receive, Channel::Heartbeat, None);
    assert_eq!(
        encode_request(&r),
        b"{\"action\":\"receive\",\"channel\":\"heartbeat\",\"payload\":null}".to_vec()
    );
}

#[test]
fn encode_send_with_payload() {
    let r = req(Action::Send, Channel::TrickleUp, Some(b"hi"));
    assert_eq!(
        encode_request(&r),
        b"{\"action\":\"send\",\"channel\":\"trickle_up\",\"payload\":\"hi\"}".to_vec()
    );
}

#[test]
fn encode_escapes_payload() {
    let r = req(Action::Delete, Channel::GraphicsRequest, Some(b"a\"b\\c\nd\te"));
    assert_eq!(
        encode_request(&r),
        b"{\"action\":\"delete\",\"channel\":\"graphics_request\",\"payload\":\"a\\\"b\\\\c\\nd\\te\"}"
            .to_vec()
    );
}

#[test]
fn encode_all_channel_names() {
    let pairs: Vec<(Channel, &[u8])> = vec![
        (Channel::ProcessControlRequest, b"process_control_request"),
        (Channel::ProcessControlReply, b"process_control_reply"),
        (Channel::GraphicsRequest, b"graphics_request"),
        (Channel::GraphicsReply, b"graphics_reply"),
        (Channel::Heartbeat, b"heartbeat"),
        (Channel::TrickleUp, b"trickle_up"),
        (Channel::TrickleDown, b"trickle_down"),
        (Channel::AppStatus, b"app_status"),
    ];
    for (c, name) in pairs {
        let line = encode_request(&req(Action::View, c, None));
        let mut expect = b"{\"action\":\"view\",\"channel\":\"".to_vec();
        expect.extend_from_slice(name);
        expect.extend_from_slice(b"\",\"payload\":null}");
        assert_eq!(line, expect);
    }
}

#[test]
fn decode_full_response() {
    let r = decode_response(b"{\"ok\":true,\"error\":\"oops\",\"data\":\"<status>A</status>\"}")
        .unwrap();
    assert_eq!(
        r,
        ToolResponse {
            ok: Some(true),
            error_msg: Some(b"oops".to_vec()),
            data: Some(b"<status>A</status>".to_vec()),
        }
    );
}

#[test]
fn decode_empty_object() {
    let r = decode_response(b"{}").unwrap();
    assert_eq!(r, ToolResponse { ok: None, error_msg: None, data: None });
}

#[test]
fn decode_whitespace_and_newline() {
    let r = decode_response(b"  { \"ok\" : false }\r\n").unwrap();
    assert_eq!(r, ToolResponse { ok: Some(false), error_msg: None, data: None });
}

#[test]
fn decode_null_fields() {
    let r = decode_response(b"{\"ok\":null,\"data\":null}").unwrap();
    assert_eq!(r, ToolResponse { ok: None, error_msg: None, data: None });
}

#[test]
fn decode_key_order_free() {
    let r = decode_response(b"{\"data\":\"x\",\"ok\":true}").unwrap();
    assert_eq!(r.ok, Some(true));
    assert_eq!(r.data, Some(b"x".to_vec()));
}

#[test]
fn decode_string_escapes() {
    let r = decode_response(b"{\"data\":\"a\\\"b\\\\c\\nd\\t\\u{67}\"}");
    // A \u escape takes four bare hexadecimal digits; a braced form is a
    // conversion failure.
    assert_eq!(r, Err(ManagerError::ConvertError));
    let r = decode_response(b"{\"data\":\"a\\\"b\\\\c\\nd\\t\"}").unwrap();
    assert_eq!(r.data, Some(b"a\"b\\c\nd\t".to_vec()));
}

#[test]
fn decode_code_point_escapes() {
    // One to three byte encodings, upper and lower case digits.
    let r = decode_response(b"{\"data\":\"\\u0041\\u004a\\u00e9\\u20AC\"}").unwrap();
    assert_eq!(r.data, Some(b"AJ\xc3\xa9\xe2\x82\xac".to_vec()));
    // A surrogate pair names one code point outside the basic plane.
    let r = decode_response(b"{\"data\":\"\\ud83d\\ude00\"}").unwrap();
    assert_eq!(r.data, Some(b"\xf0\x9f\x98\x80".to_vec()));
    // Control characters written the way the encoder writes them.
    let r = decode_response(b"{\"data\":\"\\u0001\\u001f\"}").unwrap();
    assert_eq!(r.data, Some(b"\x01\x1f".to_vec()));
}

#[test]
fn decode_bad_code_point_escapes() {
    let bad: Vec<&[u8]> = vec![
        b"{\"data\":\"\\u00g1\"}",
        b"{\"data\":\"\\u12\"}",
        b"{\"data\":\"\\ud83d\"}",
        b"{\"data\":\"\\ud83dx\"}",
        b"{\"data\":\"\\ud83d\\u0041\"}",
        b"{\"data\":\"\\ude00\"}",
    ];
    for line in bad {
        assert_eq!(decode_response(line), Err(ManagerError::ConvertError));
    }
}

#[test]
fn encode_escapes_control_bytes() {
    let r = req(Action::Send, Channel::TrickleUp, Some(b"\x01a\x1f"));
    assert_eq!(
        encode_request(&r),
        b"{\"action\":\"send\",\"channel\":\"trickle_up\",\"payload\":\"\\u0001a\\u001f\"}"
            .to_vec()
    );
}

#[test]
fn decode_malformed_lines() {
    let bad: Vec<&[u8]> = vec![
        b"",
        b"   ",
        b"{",
        b"}",
        b"{\"ok\":tru}",
        b"{\"ok\":true,}",
        b"{\"ok\":true",
        b"{\"ok\":true}}",
        b"{\"ok\":true}{",
        b"{\"ok\":\"yes\"}",
        b"{\"data\":42}",
        b"{\"unknown\":\"v\"}",
        b"{\"ok\":true \"data\":\"x\"}",
        b"{\"ok\":true,\"ok\":false}",
        b"{\"data\":\"unterminated}",
        b"[]",
        b"null",
    ];
    for line in bad {
        assert_eq!(decode_response(line), Err(ManagerError::ConvertError));
    }
}

#[test]
fn batch_line_one_entry() {
    let batch = vec![(
        Channel::AppStatus,
        Message { tag: b"status".to_vec(), body: Body::Text(b"A".to_vec()) },
    )];
    assert_eq!(encode_batch(&batch), b"{\"app_status\":{\"status\":\"A\"}}".to_vec());
}

#[test]
fn batch_line_two_entries_and_children() {
    let batch = vec![
        (Channel::Heartbeat, Message { tag: b"hb".to_vec(), body: Body::Text(b"1".to_vec()) }),
        (
            Channel::AppStatus,
            Message {
                tag: b"st".to_vec(),
                body: Body::Children(vec![
                    Message { tag: b"a".to_vec(), body: Body::Text(b"x\"y".to_vec()) },
                    Message {
                        tag: b"b".to_vec(),
                        body: Body::Children(vec![Message {
                            tag: b"c".to_vec(),
                            body: Body::Text(b"2".to_vec()),
                        }]),
                    },
                ]),
            },
        ),
    ];
    assert_eq!(
        encode_batch(&batch),
        b"{\"heartbeat\":{\"hb\":\"1\"},\"app_status\":{\"st\":{\"a\":\"x\\\"y\",\"b\":{\"c\":\"2\"}}}}"
            .to_vec()
    );
}
