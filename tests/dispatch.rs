use flutter_engine::boundary::{EngineBoundary, Outgoing, ResponseError};
use flutter_engine::channel::{Channel, ChannelRegistry, DropReason, Inbound};
use flutter_engine::codec::{CodecTypes, MethodCall, MethodCallResult};
use flutter_engine::standard_codec::{encode_method_call, encode_result};
use flutter_engine::value::Value;

const PLATFORM: u64 = 1;
const OTHER: u64 = 2;

fn call_bytes(method: &str) -> Vec<u8> {
    encode_method_call(&MethodCall { method: method.to_string(), args: Value::I32(3) })
}

fn registry() -> ChannelRegistry {
    let mut r = ChannelRegistry::new();
    let mut std = Channel::new("x/std".to_string(), CodecTypes::StandardMessageCodec);
    std.set_handler(true);
    r.register(std);
    let mut json = Channel::new("x/json".to_string(), CodecTypes::JsonMessageCodec);
    json.set_handler(true);
    r.register(json);
    r.register(Channel::new("x/idle".to_string(), CodecTypes::StandardMessageCodec));
    r
}

#[test]
fn taken_channel_names_are_reported() {
    let r = registry();
    assert!(r.contains("x/std"));
    assert!(!r.contains("x/new"));
    assert_eq!(r.len(), 3);
    assert_eq!(r.find("x/json"), Some(1));
    assert_eq!(r.find("nope"), None);
}

#[test]
fn unknown_channel_is_dropped_without_answer() {
    let r = registry();
    let mut b = EngineBoundary::new(PLATFORM);
    let msg = b.receive("no/such".to_string(), call_bytes("m"), true).unwrap();
    match r.handle(msg) {
        Inbound::Dropped { reason, response_handle } => {
            assert_eq!(reason, DropReason::UnknownChannel);
            assert!(response_handle.is_some());
        }
        other => panic!("unexpected {:?}", other),
    }
    assert_eq!(b.answers_sent_count(), 0);
    assert!(b.take_outgoing().is_empty());
}

#[test]
fn no_handler_and_decode_failure_are_dropped() {
    let r = registry();
    let mut b = EngineBoundary::new(PLATFORM);
    let msg = b.receive("x/idle".to_string(), call_bytes("m"), true).unwrap();
    assert!(matches!(
        r.handle(msg),
        Inbound::Dropped { reason: DropReason::NoHandler, .. }
    ));
    let msg = b.receive("x/std".to_string(), vec![99, 1], true).unwrap();
    assert!(matches!(
        r.handle(msg),
        Inbound::Dropped { reason: DropReason::DecodeFailure, .. }
    ));
}

#[test]
fn standard_call_is_decoded_and_json_passed_on() {
    let r = registry();
    let mut b = EngineBoundary::new(PLATFORM);
    let msg = b.receive("x/std".to_string(), call_bytes("ping"), true).unwrap();
    match r.handle(msg) {
        Inbound::Call { channel, call, response_handle } => {
            assert_eq!(channel, "x/std");
            assert_eq!(call.method, "ping");
            assert!(matches!(call.args, Value::I32(3)));
            assert_eq!(response_handle.unwrap().id(), 0);
        }
        other => panic!("unexpected {:?}", other),
    }
    let msg = b.receive("x/json".to_string(), b"{}".to_vec(), false).unwrap();
    match r.handle(msg) {
        Inbound::JsonCall { payload, response_handle, .. } => {
            assert_eq!(payload, b"{}".to_vec());
            assert!(response_handle.is_none());
        }
        other => panic!("unexpected {:?}", other),
    }
}

#[test]
fn every_call_answered_exactly_once() {
    let r = registry();
    let mut b = EngineBoundary::new(PLATFORM);
    let n = 5;
    let mut handles = Vec::new();
    for i in 0..n {
        let msg = b.receive("x/std".to_string(), call_bytes(&format!("m{}", i)), true).unwrap();
        match r.handle(msg) {
            Inbound::Call { response_handle, .. } => handles.push(response_handle),
            other => panic!("unexpected {:?}", other),
        }
    }
    assert_eq!(b.pending_count(), n);
    // answered out of arrival order
    handles.reverse();
    for mut h in handles {
        let result = MethodCallResult::Success(Value::Boolean(true));
        assert_eq!(b.send_method_call_response(PLATFORM, &mut h, &result), Ok(()));
        assert!(h.is_none());
        // a second answer through the emptied slot sends nothing
        assert_eq!(b.send_method_call_response(PLATFORM, &mut h, &result), Ok(()));
    }
    assert_eq!(b.pending_count(), 0);
    assert_eq!(b.answers_sent_count(), n as u64);
    let out = b.take_outgoing();
    assert_eq!(out.len(), n);
    let mut ids: Vec<u64> = out
        .iter()
        .map(|o| match o {
            Outgoing::Response { handle, payload } => {
                assert_eq!(payload, &vec![0, 1]);
                *handle
            }
            other => panic!("unexpected {:?}", other),
        })
        .collect();
    ids.sort();
    assert_eq!(ids, vec![0, 1, 2, 3, 4]);
}

#[test]
fn stale_handle_is_refused() {
    let mut b = EngineBoundary::new(PLATFORM);
    let m1 = b.receive("c".to_string(), vec![], true).unwrap();
    let m2 = b.receive("c".to_string(), vec![], true).unwrap();
    let h1 = m1.response_handle.unwrap();
    assert_eq!(b.send_platform_message_response(PLATFORM, h1, vec![1]), Ok(()));
    // a second engine with its own numbering has never issued this one
    let mut other = EngineBoundary::new(PLATFORM);
    let h2 = m2.response_handle.unwrap();
    assert_eq!(
        other.send_platform_message_response(PLATFORM, h2, vec![1]),
        Err(ResponseError::StaleResponseHandle)
    );
    assert_eq!(b.pending_count(), 1);
}

#[test]
fn platform_thread_is_recognised() {
    let mut b = EngineBoundary::new(PLATFORM);
    assert!(b.is_platform_thread(PLATFORM));
    assert!(!b.is_platform_thread(OTHER));
    let msg = b.receive("c".to_string(), vec![], true).unwrap();
    let mut h = msg.response_handle;
    let r = MethodCallResult::NotImplemented;
    assert!(b.is_pending(0));
    assert_eq!(b.send_method_call_response(PLATFORM, &mut h, &r), Ok(()));
    assert!(h.is_none());
    assert!(!b.is_pending(0));
    match &b.take_outgoing()[..] {
        [Outgoing::Response { handle: 0, payload }] => assert!(payload.is_empty()),
        other => panic!("unexpected {:?}", other),
    }
}

#[test]
fn answer_calls_answers_each_once() {
    let mut b = EngineBoundary::new(PLATFORM);
    let mut replies = Vec::new();
    for i in 0..4u8 {
        let m = b.receive("c".to_string(), vec![], true).unwrap();
        replies.push((m.response_handle.unwrap(), vec![i]));
    }
    replies.swap(0, 3);
    assert_eq!(b.answer_calls(PLATFORM, replies), 4);
    assert_eq!(b.pending_count(), 0);
    assert_eq!(b.answers_sent_count(), 4);
    let handles: Vec<(u64, Vec<u8>)> = b
        .take_outgoing()
        .into_iter()
        .map(|o| match o {
            Outgoing::Response { handle, payload } => (handle, payload),
            other => panic!("unexpected {:?}", other),
        })
        .collect();
    assert_eq!(handles, vec![(3, vec![3]), (1, vec![1]), (2, vec![2]), (0, vec![0])]);
}

#[test]
fn outbound_messages_and_events() {
    let mut b = EngineBoundary::new(PLATFORM);
    let call = MethodCall { method: "go".to_string(), args: Value::Null };
    b.invoke_method(PLATFORM, "c".to_string(), &call);
    b.send(PLATFORM, "c".to_string(), &Value::I32(2));
    b.send_success_event(PLATFORM, "e".to_string(), &Value::Null);
    b.send_error_event(PLATFORM, "e".to_string(), &"E".to_string(), &"m".to_string(), &Value::Null);
    let out = b.take_outgoing();
    let payloads: Vec<Vec<u8>> = out
        .into_iter()
        .map(|o| match o {
            Outgoing::Message { payload, .. } => payload,
            other => panic!("unexpected {:?}", other),
        })
        .collect();
    assert_eq!(payloads[0], vec![7, 2, b'g', b'o', 0]);
    assert_eq!(payloads[1], vec![3, 2, 0, 0, 0]);
    assert_eq!(payloads[2], vec![0, 0]);
    assert_eq!(payloads[3], vec![1, 7, 1, b'E', 7, 1, b'm', 0]);
    let err = MethodCallResult::Error {
        code: "E".to_string(),
        message: "m".to_string(),
        details: Value::Null,
    };
    assert_eq!(encode_result(&err), payloads[3]);
}

#[test]
fn message_without_answer_carries_no_handle() {
    let mut b = EngineBoundary::new(PLATFORM);
    let msg = b.receive("c".to_string(), vec![5], false).unwrap();
    assert!(msg.response_handle.is_none());
    assert_eq!(msg.message, vec![5]);
    assert_eq!(b.pending_count(), 0);
}
