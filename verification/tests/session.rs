use cc2_webcontrol::error::PrinterError;
use cc2_webcontrol::json::{Json, JsonNumber};
use cc2_webcontrol::session::{
    classify_status, register_accepted, request, response_action, rpc_reply_payload, session_topics,
    Command, ResponseAction, StatusKind, WsSession, FIRST_REQUEST_ID,
};

fn uint(n: u64) -> Json {
    Json::Number(JsonNumber::PosInt(n))
}

fn text(s: &str) -> Json {
    Json::Text(s.to_string())
}

fn obj(entries: Vec<(&str, Json)>) -> Json {
    Json::Object(entries.into_iter().map(|(k, v)| (k.to_string(), v)).collect())
}

fn id_of(j: &Json) -> u64 {
    match j.get("id") {
        Some(Json::Number(JsonNumber::PosInt(n))) => *n,
        _ => panic!("no id"),
    }
}

fn method_of(j: &Json) -> u64 {
    match j.get("method") {
        Some(Json::Number(JsonNumber::PosInt(n))) => *n,
        _ => panic!("no method"),
    }
}

#[test]
fn topics_of_a_session() {
    let t = session_topics("P1", "webIF_ab");
    assert_eq!(t.api_response, "elegoo/P1/webIF_ab/api_response");
    assert_eq!(t.api_status, "elegoo/P1/api_status");
    assert_eq!(t.api_request, "elegoo/P1/webIF_ab/api_request");
    assert_eq!(t.register_response, "elegoo/P1/webIF_ab_req/register_response");
    assert_eq!(t.api_register, "elegoo/P1/api_register");
}

#[test]
fn commands_wait_for_registration_in_order() {
    let mut s = WsSession::new(0);
    for i in 0..6u64 {
        assert!(s.on_command(Command { id: 100 + i, method: 1021, params: None }).is_none());
    }
    assert_eq!(s.queue.len(), 4);
    assert!(s.on_heartbeat(100_000).is_empty());
    let reply = obj(vec![("client_id", text("x")), ("error", text("ok"))]);
    let out = s.on_register_reply(&reply).unwrap();
    assert!(s.registered);
    assert!(s.queue.is_empty());
    assert_eq!(out.len(), 3 + 4);
    assert_eq!(id_of(&out[0]), FIRST_REQUEST_ID);
    assert_eq!(method_of(&out[0]), 1002);
    assert_eq!(method_of(&out[1]), 2005);
    assert_eq!(method_of(&out[2]), 1044);
    for i in 0..4u64 {
        assert_eq!(id_of(&out[3 + i as usize]), 100 + i);
    }
    assert_eq!(s.next_id, FIRST_REQUEST_ID + 3);
    let sent = s.on_command(Command { id: 7, method: 1029, params: Some(obj(vec![("power", uint(1))])) }).unwrap();
    assert_eq!(sent, obj(vec![("id", uint(7)), ("method", uint(1029)), ("params", obj(vec![("power", uint(1))]))]));
}

#[test]
fn rejected_registration_ends_the_session() {
    let mut s = WsSession::new(0);
    let reply = obj(vec![("error", text("denied"))]);
    match s.on_register_reply(&reply) {
        Err(PrinterError::WebSocket(m)) => assert_eq!(m, "registration rejected"),
        _ => panic!("expected a rejection"),
    }
    assert!(!s.registered);
    assert!(!register_accepted(&Json::Null));
}

#[test]
fn heartbeat_asks_for_status_when_pushes_stop() {
    let mut s = WsSession::new(1_000);
    s.registered = true;
    let out = s.on_heartbeat(10_000);
    assert_eq!(out, vec![obj(vec![("type", text("PING"))])]);
    let out = s.on_heartbeat(61_000);
    assert_eq!(out.len(), 2);
    assert_eq!(out[1], request(FIRST_REQUEST_ID, 1002, None));
    let push = obj(vec![("method", uint(6000)), ("result", obj(vec![]))]);
    assert_eq!(s.on_status_message(&push, 61_500), StatusKind::Push);
    assert_eq!(s.last_status_push_ms, 61_500);
    assert_eq!(s.on_heartbeat(62_000).len(), 1);
}

#[test]
fn status_messages_are_classified() {
    assert_eq!(classify_status(&obj(vec![("type", text("PONG"))])), StatusKind::Heartbeat);
    assert_eq!(classify_status(&obj(vec![("method", uint(6000))])), StatusKind::Push);
    assert_eq!(classify_status(&obj(vec![("method", uint(6001))])), StatusKind::Other);
    assert_eq!(classify_status(&Json::Null), StatusKind::Other);
}

#[test]
fn thumbnail_is_asked_once_per_interval() {
    let mut s = WsSession::new(0);
    let first = s.thumbnail_request("a.gcode", true, false, 1_000).unwrap();
    assert_eq!(method_of(&first), 1045);
    assert!(s.thumbnail_request("a.gcode", true, false, 20_000).is_none());
    assert!(s.thumbnail_request("a.gcode", true, false, 31_000).is_some());
    // a new file is asked for at once
    assert!(s.thumbnail_request("b.gcode", true, false, 31_500).is_some());
    assert!(s.thumbnail_request("b.gcode", true, true, 90_000).is_none());
    assert!(s.thumbnail_request("", true, false, 90_000).is_none());
    assert!(s.thumbnail_request("c.gcode", false, false, 90_000).is_none());
    assert_eq!(s.thumbnail_file("now.gcode"), "b.gcode");
    let mut fresh = WsSession::new(0);
    assert_eq!(fresh.thumbnail_file("now.gcode"), "now.gcode");
    assert!(fresh.thumbnail_after_seed("x.gcode", true, false, 5).is_some());
    assert_eq!(fresh.last_thumb_request_ms, Some(5));
}

#[test]
fn reply_payload_gets_error_code() {
    let data = obj(vec![("file_list", Json::Array(vec![]))]);
    let r = rpc_reply_payload(data, 3);
    assert_eq!(r, obj(vec![("file_list", Json::Array(vec![])), ("error_code", uint(3))]));
    let has = obj(vec![("error_code", uint(0))]);
    assert_eq!(rpc_reply_payload(has, 5), obj(vec![("error_code", uint(0))]));
    assert_eq!(rpc_reply_payload(text("x"), 1), obj(vec![("error_code", uint(1)), ("value", text("x"))]));
}

#[test]
fn responses_are_dispatched() {
    assert!(matches!(response_action(1002, 0, &Json::Null), ResponseAction::SeedFullStatus));
    assert!(matches!(response_action(1002, 1, &Json::Null), ResponseAction::Ignore));
    let thumb = obj(vec![("thumbnail", text("data:..."))]);
    match response_action(1045, 0, &thumb) {
        ResponseAction::CacheThumbnail(t) => assert_eq!(t, "data:..."),
        _ => panic!("expected a thumbnail"),
    }
    assert!(matches!(response_action(1045, 0, &obj(vec![])), ResponseAction::EmptyThumbnail));
    let files = obj(vec![("file_list", Json::Array(vec![uint(1)]))]);
    assert!(matches!(response_action(1044, 0, &files), ResponseAction::ReplaceFileList));
    let none = obj(vec![("file_list", Json::Array(vec![]))]);
    assert!(matches!(response_action(1044, 0, &none), ResponseAction::KeepFileList));
    let canvas = obj(vec![("canvas_info", obj(vec![]))]);
    assert!(matches!(response_action(2005, 0, &canvas), ResponseAction::LoadCanvasInfo));
    assert!(matches!(response_action(9999, 0, &canvas), ResponseAction::Ignore));
}
