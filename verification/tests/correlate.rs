use serde_json::Value;
use wsrpc::correlate::{
    await_reply, decode_frame, on_inbound, reply_from, scan_replies, same_text, Inbound, ReplyBody,
};
use wsrpc::error::SessionError;

fn value(text: &str) -> Value {
    serde_json::from_str(text).unwrap()
}

fn frame(text: &str) -> Inbound {
    Inbound::Text(text.to_string())
}

#[test]
fn text_comparison() {
    assert!(same_text("1", "1"));
    assert!(!same_text("1", "2"));
    assert!(!same_text("1", "11"));
    assert!(same_text("", ""));
}

#[test]
fn reads_a_result_reply() {
    let r = reply_from(&value(r#"{"jsonrpc":"2.0","id":"1","result":"0xabc"}"#));
    assert_eq!(r.id, Some("1".to_string()));
    assert!(matches!(r.body, ReplyBody::Result(ref v) if *v == value(r#""0xabc""#)));
}

#[test]
fn reads_an_error_reply() {
    let r = reply_from(&value(
        r#"{"jsonrpc":"2.0","id":"7","error":{"code":-32601,"message":"Method not found"}}"#,
    ));
    assert_eq!(r.id, Some("7".to_string()));
    assert!(
        matches!(r.body, ReplyBody::Fault { code: -32601, ref message } if message == "Method not found")
    );
}

#[test]
fn reads_a_reply_without_result() {
    let r = reply_from(&value(r#"{"jsonrpc":"2.0","method":"notify","params":[1]}"#));
    assert_eq!(r.id, None);
    assert!(matches!(r.body, ReplyBody::Missing));
}

#[test]
fn numeric_identifier_is_no_text() {
    let r = reply_from(&value(r#"{"id":1,"result":true}"#));
    assert_eq!(r.id, None);
}

#[test]
fn decodes_a_single_frame() {
    let replies = decode_frame(r#"{"id":"1","result":5}"#).unwrap();
    assert_eq!(replies.len(), 1);
    assert_eq!(replies[0].id, Some("1".to_string()));
}

#[test]
fn decodes_a_batch_frame_in_order() {
    let replies = decode_frame(r#"[{"id":"a","result":1},{"id":"b","result":2},{"id":"c","result":3}]"#)
        .unwrap();
    assert_eq!(replies.len(), 3);
    assert_eq!(replies[0].id, Some("a".to_string()));
    assert_eq!(replies[1].id, Some("b".to_string()));
    assert_eq!(replies[2].id, Some("c".to_string()));
    assert!(matches!(replies[1].body, ReplyBody::Result(ref v) if *v == value("2")));
}

#[test]
fn undecodable_frame_is_malformed() {
    assert!(matches!(decode_frame("not json"), Err(SessionError::MalformedFrameError)));
    assert!(matches!(decode_frame(""), Err(SessionError::MalformedFrameError)));
    assert!(matches!(decode_frame("{\"id\":"), Err(SessionError::MalformedFrameError)));
}

#[test]
fn scan_finds_the_first_match() {
    let replies =
        decode_frame(r#"[{"id":"x","result":1},{"id":"1","result":2},{"id":"1","result":3}]"#).unwrap();
    assert_eq!(scan_replies(&replies, "1"), Some(Ok(value("2"))));
    assert_eq!(scan_replies(&replies, "x"), Some(Ok(value("1"))));
    assert_eq!(scan_replies(&replies, "y"), None);
}

#[test]
fn non_matching_frame_keeps_waiting() {
    assert_eq!(on_inbound("1", &frame(r#"{"id":"2","result":0}"#)), None);
    assert_eq!(on_inbound("1", &frame(r#"{"method":"chain_newHead","params":{}}"#)), None);
    assert_eq!(on_inbound("1", &frame(r#"[]"#)), None);
    assert_eq!(on_inbound("1", &Inbound::Other), None);
}

#[test]
fn matching_reply_after_unrelated_ones() {
    let mut events: Vec<Inbound> = Vec::new();
    for i in 0..25 {
        events.push(frame(&format!(r#"{{"id":"n{}","result":{}}}"#, i, i)));
    }
    events.push(Inbound::Other);
    events.push(frame(r#"[{"id":"2","result":"no"},{"id":"3","result":"no"}]"#));
    events.push(frame(r#"[{"id":"9","result":"no"},{"id":"1","result":"yes"}]"#));
    events.push(frame(r#"{"id":"1","result":"late"}"#));
    assert_eq!(await_reply("1", &events), Some(Ok(value(r#""yes""#))));
}

#[test]
fn no_match_leaves_the_wait_open() {
    let events = vec![frame(r#"{"id":"2","result":0}"#), Inbound::Other];
    assert_eq!(await_reply("1", &events), None);
    assert_eq!(await_reply("1", &Vec::new()), None);
}

#[test]
fn closed_channel_ends_the_wait() {
    assert_eq!(on_inbound("1", &Inbound::Closed), Some(Err(SessionError::ClosedError)));
    let events = vec![frame(r#"{"id":"2","result":0}"#), Inbound::Closed, frame(r#"{"id":"1","result":0}"#)];
    assert_eq!(await_reply("1", &events), Some(Err(SessionError::ClosedError)));
}

#[test]
fn malformed_frame_ends_the_wait() {
    let events = vec![frame(r#"{"id":"2","result":0}"#), frame("{oops"), frame(r#"{"id":"1","result":0}"#)];
    assert_eq!(await_reply("1", &events), Some(Err(SessionError::MalformedFrameError)));
}

#[test]
fn remote_error_is_handed_up() {
    let got = on_inbound(
        "1",
        &frame(r#"{"jsonrpc":"2.0","id":"1","error":{"code":-32000,"message":"Unknown block"}}"#),
    );
    assert_eq!(
        got,
        Some(Err(SessionError::RpcError { code: -32000, message: "Unknown block".to_string() }))
    );
}

#[test]
fn matched_reply_without_result_is_malformed() {
    assert_eq!(
        on_inbound("1", &frame(r#"{"jsonrpc":"2.0","id":"1"}"#)),
        Some(Err(SessionError::MalformedFrameError))
    );
}

#[test]
fn null_result_is_a_result() {
    assert_eq!(on_inbound("1", &frame(r#"{"id":"1","result":null}"#)), Some(Ok(Value::Null)));
}

#[test]
fn null_error_beside_a_result_is_no_error() {
    let r = reply_from(&value(r#"{"jsonrpc":"2.0","id":"1","result":"0xabc","error":null}"#));
    assert!(matches!(r.body, ReplyBody::Result(ref v) if *v == value(r#""0xabc""#)));
    assert_eq!(
        on_inbound("1", &frame(r#"{"id":"1","error":null,"result":[1,2]}"#)),
        Some(Ok(value("[1,2]")))
    );
}

#[test]
fn error_beside_a_result_decides() {
    assert_eq!(
        on_inbound("1", &frame(r#"{"id":"1","result":5,"error":{"code":7,"message":"no"}}"#)),
        Some(Err(SessionError::RpcError { code: 7, message: "no".to_string() }))
    );
}

#[test]
fn error_in_place_of_a_result_decides() {
    assert_eq!(
        on_inbound("1", &frame(r#"{"id":"1","error":{"code":-1}}"#)),
        Some(Err(SessionError::RpcError { code: -1, message: String::new() }))
    );
    assert_eq!(
        on_inbound("1", &frame(r#"{"id":"1","error":null}"#)),
        Some(Err(SessionError::RpcError { code: 0, message: String::new() }))
    );
}
