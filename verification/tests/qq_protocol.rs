use tinybot::qq::api::{
    auth_header, c2c_message_url, gateway_error, send_error, send_message_request, token_error,
    token_request, TokenCache,
};
use tinybot::qq::error::QqError;
use tinybot::qq::types::WsPayload;
use tinybot::qq::ws::{
    after_heartbeat, heartbeat_ack_text, heartbeat_text, identify_data, is_hello, is_ready,
    on_frame, should_reconnect, ws_error, HeartbeatStep, HeartbeatWait, WsFrame, WsStep,
    INTENTS_C2C,
};

fn payload(op: i32, s: Option<i64>, t: Option<&str>) -> WsPayload {
    WsPayload { op, d: serde_json::Value::Null, s, t: t.map(String::from), id: None }
}

#[test]
fn token_cache_serves_until_a_minute_before_expiry() {
    let mut c = TokenCache::new();
    assert_eq!(c.fresh_token(0), None);
    c.store("tok".into(), 7200, 1_000);
    assert_eq!(c.fresh_token(1_000), Some("tok".to_string()));
    assert_eq!(c.fresh_token(1_000 + 7_140_000 - 1), Some("tok".to_string()));
    assert_eq!(c.fresh_token(1_000 + 7_140_000), None);
}

#[test]
fn token_shorter_than_the_margin_is_never_fresh() {
    let mut c = TokenCache::new();
    c.store("tok".into(), 30, 5_000);
    assert_eq!(c.fresh_token(5_000), None);
}

#[test]
fn error_texts() {
    match token_error(401, "bad secret") {
        QqError::Auth(m) => assert_eq!(m, "Token 获取失败 HTTP 401: bad secret"),
        other => panic!("unexpected {:?}", other),
    }
    match gateway_error(500, "oops") {
        QqError::Connection(m) => assert_eq!(m, "Gateway 获取失败 HTTP 500: oops"),
        other => panic!("unexpected {:?}", other),
    }
    match send_error(400, "no") {
        QqError::SendMessage(m) => assert_eq!(m, "HTTP 400: no"),
        other => panic!("unexpected {:?}", other),
    }
}

#[test]
fn error_body_is_cut_at_two_hundred_bytes() {
    let body = "x".repeat(250);
    match token_error(502, &body) {
        QqError::Auth(m) => assert_eq!(m, format!("Token 获取失败 HTTP 502: {}", "x".repeat(200))),
        other => panic!("unexpected {:?}", other),
    }
}

#[test]
fn request_pieces() {
    assert_eq!(auth_header("abc"), "QQBot abc");
    assert_eq!(c2c_message_url("OPENID"), "https://api.sgroup.qq.com/v2/users/OPENID/messages");
    let r = send_message_request("hi", Some("m1"));
    assert_eq!(r.content, "hi");
    assert_eq!(r.msg_type, 0);
    assert_eq!(r.msg_id.as_deref(), Some("m1"));
    assert_eq!(r.msg_seq, None);
    let t = token_request("app", "secret");
    assert_eq!(t.app_id, "app");
    assert_eq!(t.client_secret, "secret");
}

#[test]
fn identify_and_heartbeat_frames() {
    let d = identify_data("T");
    assert_eq!(d.token, "QQBot T");
    assert_eq!(d.intents, INTENTS_C2C);
    assert_eq!(d.intents, 1 << 25);
    assert_eq!(d.shard, [0, 1]);
    assert!(d.properties.is_none());
    assert_eq!(heartbeat_text(42), "{\"op\":1,\"d\":42}");
    assert_eq!(heartbeat_text(-7), "{\"op\":1,\"d\":-7}");
    assert_eq!(heartbeat_ack_text(), "{\"op\":11}");
}

#[test]
fn hello_and_ready_are_recognised() {
    assert!(is_hello(&payload(10, None, None)));
    assert!(!is_hello(&payload(0, None, None)));
    assert!(is_ready(&payload(0, Some(1), Some("READY"))));
    assert!(!is_ready(&payload(0, Some(1), Some("RESUMED"))));
    assert!(!is_ready(&payload(10, None, Some("READY"))));
}

#[test]
fn frames_drive_the_session() {
    let mut seq = 0i64;
    let step = on_frame(&WsFrame::Text(payload(0, Some(5), Some("C2C_MESSAGE_CREATE"))), &mut seq);
    assert_eq!(step, WsStep::Emit);
    assert_eq!(seq, 5);
    let step = on_frame(&WsFrame::Text(payload(0, None, Some("GROUP_AT_MESSAGE_CREATE"))), &mut seq);
    assert_eq!(step, WsStep::Continue);
    assert_eq!(seq, 5);
    assert_eq!(on_frame(&WsFrame::Text(payload(7, Some(6), None)), &mut seq), WsStep::Reconnect);
    assert_eq!(seq, 6);
    assert_eq!(on_frame(&WsFrame::Text(payload(9, None, None)), &mut seq), WsStep::Reconnect);
    assert_eq!(on_frame(&WsFrame::Text(payload(11, None, None)), &mut seq), WsStep::HeartbeatAck);
    assert_eq!(on_frame(&WsFrame::Text(payload(10, None, None)), &mut seq), WsStep::Continue);
    assert_eq!(on_frame(&WsFrame::Ping, &mut seq), WsStep::SendAck);
    assert_eq!(on_frame(&WsFrame::Close, &mut seq), WsStep::Closed);
    assert_eq!(on_frame(&WsFrame::End, &mut seq), WsStep::Closed);
    assert_eq!(on_frame(&WsFrame::Other, &mut seq), WsStep::Continue);
    let step = on_frame(&WsFrame::Error("reset".into()), &mut seq);
    assert_eq!(step, WsStep::Fail("reset".into()));
    assert!(matches!(ws_error(&step), Some(QqError::Ws(m)) if m == "reset"));
    assert!(ws_error(&WsStep::Closed).is_none());
    assert_eq!(seq, 6);
}

#[test]
fn reconnect_and_heartbeat_decisions() {
    assert!(should_reconnect(false));
    assert!(!should_reconnect(true));
    assert_eq!(after_heartbeat(HeartbeatWait::Ack), HeartbeatStep::Continue);
    assert_eq!(after_heartbeat(HeartbeatWait::TimedOut), HeartbeatStep::ReportTimeout);
    assert_eq!(after_heartbeat(HeartbeatWait::Shutdown), HeartbeatStep::Stop);
    assert_eq!(after_heartbeat(HeartbeatWait::AckChannelClosed), HeartbeatStep::Stop);
}
