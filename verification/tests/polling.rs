use std::cell::RefCell;
use std::rc::Rc;

use toolbridge::manager::{ToolManager, ToolStream};
use toolbridge::markup::{Body, Message};
use toolbridge::encode::encode_request;
use toolbridge::wire::{Action, Channel, ManagerError, ToolRequest, ToolResponse};

/// Hands back a scripted reply per request and logs every request it saw.
struct ScriptStream {
    replies: Vec<Result<ToolResponse, ManagerError>>,
    next: usize,
    log: Rc<RefCell<Vec<ToolRequest>>>,
}

impl ScriptStream {
    fn new(replies: Vec<Result<ToolResponse, ManagerError>>) -> (ScriptStream, Rc<RefCell<Vec<ToolRequest>>>) {
        let log = Rc::new(RefCell::new(Vec::new()));
        (ScriptStream { replies, next: 0, log: log.clone() }, log)
    }
}

impl ToolStream for ScriptStream {
    fn do_request(&mut self, req: &ToolRequest) -> Result<ToolResponse, ManagerError> {
        self.log.borrow_mut().push(req.clone());
        let r = self.replies[self.next].clone();
        self.next += 1;
        r
    }
}

fn data_reply(payload: &[u8]) -> Result<ToolResponse, ManagerError> {
    Ok(ToolResponse { ok: None, error_msg: None, data: Some(payload.to_vec()) })
}

fn empty_reply() -> Result<ToolResponse, ManagerError> {
    Ok(ToolResponse { ok: None, error_msg: None, data: None })
}

fn status_msg(text: &[u8]) -> Message {
    Message { tag: b"status".to_vec(), body: Body::Text(text.to_vec()) }
}

#[test]
fn view_then_dedup_then_change() {
    // First reply yields a message, an identical reply yields nothing,
    // a changed reply yields the new message.
    let (stream, log) = ScriptStream::new(vec![
        data_reply(b"<status>A</status>"),
        data_reply(b"<status>A</status>"),
        data_reply(b"<status>B</status>"),
    ]);
    let mut mgr = ToolManager::new(stream);
    assert_eq!(mgr.fetch_updates(Channel::AppStatus, false), Ok(Some(status_msg(b"A"))));
    assert_eq!(mgr.fetch_updates(Channel::AppStatus, false), Ok(None));
    assert_eq!(mgr.fetch_updates(Channel::AppStatus, false), Ok(Some(status_msg(b"B"))));
    let reqs = log.borrow();
    assert_eq!(reqs.len(), 3);
    for r in reqs.iter() {
        assert_eq!(
            encode_request(r),
            b"{\"action\":\"view\",\"channel\":\"app_status\",\"payload\":null}".to_vec()
        );
    }
}

#[test]
fn receive_flag_sends_receive_action() {
    let (stream, log) = ScriptStream::new(vec![empty_reply()]);
    let mut mgr = ToolManager::new(stream);
    assert_eq!(mgr.fetch_updates(Channel::Heartbeat, true), Ok(None));
    let reqs = log.borrow();
    assert_eq!(reqs.len(), 1);
    assert_eq!(reqs[0].action, Action::Receive);
    assert_eq!(reqs[0].channel, Channel::Heartbeat);
    assert_eq!(reqs[0].payload, None);
}

#[test]
fn no_data_is_no_update() {
    let (stream, _log) = ScriptStream::new(vec![empty_reply()]);
    let mut mgr = ToolManager::new(stream);
    assert_eq!(mgr.fetch_updates(Channel::AppStatus, false), Ok(None));
}

#[test]
fn empty_payload_is_no_update() {
    // The cache starts at the empty string, so an empty payload is
    // unchanged; after a real payload, an empty one is fresh yet still no
    // update.
    let (stream, _log) = ScriptStream::new(vec![
        data_reply(b""),
        data_reply(b"<status>A</status>"),
        data_reply(b""),
        data_reply(b""),
    ]);
    let mut mgr = ToolManager::new(stream);
    assert_eq!(mgr.fetch_updates(Channel::AppStatus, false), Ok(None));
    assert_eq!(mgr.fetch_updates(Channel::AppStatus, false), Ok(Some(status_msg(b"A"))));
    assert_eq!(mgr.fetch_updates(Channel::AppStatus, false), Ok(None));
    assert_eq!(mgr.fetch_updates(Channel::AppStatus, false), Ok(None));
}

#[test]
fn only_data_matters_to_the_manager() {
    // The ok and error fields ride along but the manager decides on data
    // alone.
    let (stream, _log) = ScriptStream::new(vec![Ok(ToolResponse {
        ok: Some(false),
        error_msg: Some(b"warn".to_vec()),
        data: Some(b"<status>A</status>".to_vec()),
    })]);
    let mut mgr = ToolManager::new(stream);
    assert_eq!(mgr.fetch_updates(Channel::AppStatus, false), Ok(Some(status_msg(b"A"))));
}

#[test]
fn transport_error_propagates() {
    let (stream, _log) = ScriptStream::new(vec![Err(ManagerError::NullError)]);
    let mut mgr = ToolManager::new(stream);
    assert_eq!(mgr.fetch_updates(Channel::AppStatus, false), Err(ManagerError::NullError));
}

#[test]
fn undecodable_payload_is_not_cached() {
    // A payload that fails to decode is a conversion failure and never
    // enters the cache: the same bad payload fails again rather than being
    // treated as already seen.
    let (stream, _log) = ScriptStream::new(vec![
        data_reply(b"not markup"),
        data_reply(b"not markup"),
        data_reply(b"<status>A</status>"),
    ]);
    let mut mgr = ToolManager::new(stream);
    assert_eq!(mgr.fetch_updates(Channel::AppStatus, false), Err(ManagerError::ConvertError));
    assert_eq!(mgr.fetch_updates(Channel::AppStatus, false), Err(ManagerError::ConvertError));
    assert_eq!(mgr.fetch_updates(Channel::AppStatus, false), Ok(Some(status_msg(b"A"))));
}

#[test]
fn channels_are_cached_independently() {
    let (stream, _log) = ScriptStream::new(vec![
        data_reply(b"<x>1</x>"),
        data_reply(b"<x>1</x>"),
        data_reply(b"<x>1</x>"),
    ]);
    let mut mgr = ToolManager::new(stream);
    assert!(mgr.fetch_updates(Channel::AppStatus, false).unwrap().is_some());
    // The same payload on another channel is fresh there.
    assert!(mgr.fetch_updates(Channel::Heartbeat, false).unwrap().is_some());
    // And unchanged on the first channel.
    assert_eq!(mgr.fetch_updates(Channel::AppStatus, false), Ok(None));
}

#[test]
fn process_response_directly() {
    let (stream, _log) = ScriptStream::new(vec![]);
    let mut mgr = ToolManager::new(stream);
    let none = ToolResponse { ok: Some(true), error_msg: None, data: None };
    assert_eq!(mgr.process_response(Channel::TrickleDown, none), Ok(None));
    let fresh = ToolResponse {
        ok: None,
        error_msg: None,
        data: Some(b"<t>v</t>".to_vec()),
    };
    assert_eq!(
        mgr.process_response(Channel::TrickleDown, fresh),
        Ok(Some(Message { tag: b"t".to_vec(), body: Body::Text(b"v".to_vec()) }))
    );
}

#[test]
fn cycle_collects_fresh_messages() {
    let (stream, _log) = ScriptStream::new(vec![
        data_reply(b"<status>A</status>"),
    ]);
    let mut mgr = ToolManager::new(stream);
    let channels = vec![Channel::AppStatus];
    let batch = mgr.fetch_cycle(&channels).unwrap();
    assert_eq!(batch.len(), 1);
    assert_eq!(batch[0].0, Channel::AppStatus);
    assert_eq!(batch[0].1, status_msg(b"A"));
}

#[test]
fn cycle_swallows_every_failure() {
    // Every channel fails, in different ways: the cycle still returns
    // normally and yields no batch.
    let (stream, _log) = ScriptStream::new(vec![
        Err(ManagerError::NullError),
        data_reply(b"garbage"),
        Err(ManagerError::ReadError),
    ]);
    let mut mgr = ToolManager::new(stream);
    let channels = vec![Channel::AppStatus, Channel::Heartbeat, Channel::TrickleUp];
    assert_eq!(mgr.fetch_cycle(&channels), None);
}

#[test]
fn cycle_with_no_channels_yields_nothing() {
    let (stream, _log) = ScriptStream::new(vec![]);
    let mut mgr = ToolManager::new(stream);
    let channels: Vec<Channel> = vec![];
    assert_eq!(mgr.fetch_cycle(&channels), None);
}

#[test]
fn cycle_mixes_failures_and_updates() {
    // One channel fails, one is quiet, one is fresh: only the fresh one
    // enters the batch and the failures stay invisible.
    let (stream, _log) = ScriptStream::new(vec![
        Err(ManagerError::NullError),
        empty_reply(),
        data_reply(b"<status>B</status>"),
    ]);
    let mut mgr = ToolManager::new(stream);
    let channels = vec![Channel::Heartbeat, Channel::TrickleUp, Channel::AppStatus];
    let batch = mgr.fetch_cycle(&channels).unwrap();
    assert_eq!(batch.len(), 1);
    assert_eq!(batch[0].0, Channel::AppStatus);
    assert_eq!(batch[0].1, status_msg(b"B"));
}

#[test]
fn cycle_dedups_across_cycles() {
    let (stream, _log) = ScriptStream::new(vec![
        data_reply(b"<status>A</status>"),
        data_reply(b"<status>A</status>"),
    ]);
    let mut mgr = ToolManager::new(stream);
    let channels = vec![Channel::AppStatus];
    assert!(mgr.fetch_cycle(&channels).is_some());
    assert_eq!(mgr.fetch_cycle(&channels), None);
}
