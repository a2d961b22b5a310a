//! The decisions of the QQ WebSocket session: the frames it sends, which
//! received frames it waits for, what each received frame leads to, and when
//! to reconnect.
use vstd::prelude::*;

use crate::qq::error::QqError;
use crate::qq::types::{IdentifyData, WsPayload, WsSend};
use crate::text::{i64_decimal, push_all, push_str, signed_decimal, string_of};

verus! {

/// The events the session subscribes to: private messages (bit 25).
pub const INTENTS_C2C: i64 = 33554432i64;

/// Seconds to wait before reconnecting after a failed session.
pub const RECONNECT_DELAY_SECS: u64 = 5u64;

/// Seconds to wait for a heartbeat acknowledgement.
pub const HEARTBEAT_ACK_TIMEOUT_SECS: u64 = 3u64;

/// The Identify data for an access token: `QQBot <token>`, private-message
/// intents, shard 0 of 1, no properties.
pub fn identify_data(token: &str) -> (d: IdentifyData)
    ensures
        d.token@ == "QQBot "@ + token@,
        d.intents == INTENTS_C2C,
        d.shard[0] == 0 && d.shard[1] == 1,
        d.properties is None,
{
    let mut v: Vec<char> = Vec::new();
    push_str(&mut v, "QQBot ");
    push_str(&mut v, token);
    IdentifyData { token: string_of(&v), intents: INTENTS_C2C, shard: [0, 1], properties: None }
}

/// The Identify frame (opcode 2) carrying `d`.
pub fn identify_payload(d: serde_json::Value) -> (p: WsSend)
    ensures
        p.op == 2,
        p.d == Some(d),
        p.s is None,
        p.t is None,
{
    WsSend { op: 2, d: Some(d), s: None, t: None }
}

/// The text of a heartbeat frame (opcode 1) carrying the latest sequence number.
pub open spec fn heartbeat_text_spec(seq: i64) -> Seq<char> {
    "{\"op\":1,\"d\":"@ + signed_decimal(seq as int) + "}"@
}

/// The heartbeat frame `{"op":1,"d":<seq>}`.
pub fn heartbeat_text(seq: i64) -> (s: String)
    ensures
        s@ == heartbeat_text_spec(seq),
{
    let mut v: Vec<char> = Vec::new();
    push_str(&mut v, "{\"op\":1,\"d\":");
    let d = i64_decimal(seq);
    push_all(&mut v, &d);
    push_str(&mut v, "}");
    string_of(&v)
}

/// The heartbeat acknowledgement frame `{"op":11}`, sent in answer to a ping.
pub fn heartbeat_ack_text() -> (s: String)
    ensures
        s@ == "{\"op\":11}"@,
{
    String::from_str("{\"op\":11}")
}

/// The event type of a payload is exactly `name`.
pub open spec fn has_type(p: WsPayload, name: Seq<char>) -> bool {
    p.t matches Some(t) && t@ == name
}

fn type_is(p: &WsPayload, name: &str) -> (b: bool)
    ensures
        b == has_type(*p, name@),
{
    match &p.t {
        Some(t) => crate::text::str_equal(t.as_str(), name),
        None => false,
    }
}

/// The Hello frame (opcode 10), which the session waits for first.
pub fn is_hello(p: &WsPayload) -> (b: bool)
    ensures
        b == (p.op == 10),
{
    p.op == 10
}

/// The READY dispatch (opcode 0, type `READY`), which the session waits for
/// after Identify.
pub fn is_ready(p: &WsPayload) -> (b: bool)
    ensures
        b == (p.op == 0 && has_type(*p, "READY"@)),
{
    p.op == 0 && type_is(p, "READY")
}

/// What a received frame leads to.
#[derive(Debug, PartialEq, Eq)]
pub enum WsStep {
    /// Convert the payload's data into a private message event and deliver it.
    Emit,
    /// The server asks for a new session (opcode 7 or 9): end this one.
    Reconnect,
    /// Answer a ping with a heartbeat acknowledgement.
    SendAck,
    /// The server acknowledged a heartbeat (opcode 11).
    HeartbeatAck,
    /// The connection closed: end the session without error.
    Closed,
    /// The connection failed: end the session with this error text.
    Fail(String),
    /// Nothing to do.
    Continue,
}

/// A frame as received from the WebSocket.
pub enum WsFrame {
    Text(WsPayload),
    Ping,
    Close,
    End,
    Error(String),
    Other,
}

/// The latest sequence number after `p`: the payload's own, if it has one.
pub open spec fn next_seq(p: WsPayload, latest: i64) -> i64 {
    match p.s {
        Some(s) => s,
        None => latest,
    }
}

/// What a received frame leads to: a private-message dispatch is emitted,
/// opcodes 7 and 9 end the session for a reconnect, opcode 11 acknowledges a
/// heartbeat, a ping is acknowledged, a close or the end of the stream ends
/// it, an error fails it; every payload's sequence number becomes the latest one.
pub fn on_frame(frame: &WsFrame, latest_seq: &mut i64) -> (step: WsStep)
    ensures
        frame matches WsFrame::Text(p) ==> *final(latest_seq) == next_seq(*p, *old(latest_seq)),
        !(frame is Text) ==> *final(latest_seq) == *old(latest_seq),
        frame matches WsFrame::Text(p) ==> step == if p.op == 0 && has_type(
            *p,
            "C2C_MESSAGE_CREATE"@,
        ) {
            WsStep::Emit
        } else if p.op == 7 || p.op == 9 {
            WsStep::Reconnect
        } else if p.op == 11 {
            WsStep::HeartbeatAck
        } else {
            WsStep::Continue
        },
        frame is Ping ==> step == WsStep::SendAck,
        (frame is Close || frame is End) ==> step == WsStep::Closed,
        frame matches WsFrame::Error(e) ==> (step matches WsStep::Fail(m) && m@ == e@),
        frame is Other ==> step == WsStep::Continue,
{
    match frame {
        WsFrame::Text(p) => {
            match p.s {
                Some(s) => {
                    *latest_seq = s;
                },
                None => {},
            }
            if p.op == 0 {
                if type_is(p, "C2C_MESSAGE_CREATE") {
                    WsStep::Emit
                } else {
                    WsStep::Continue
                }
            } else if p.op == 7 || p.op == 9 {
                WsStep::Reconnect
            } else if p.op == 11 {
                WsStep::HeartbeatAck
            } else {
                WsStep::Continue
            }
        },
        WsFrame::Ping => WsStep::SendAck,
        WsFrame::Close => WsStep::Closed,
        WsFrame::End => WsStep::Closed,
        WsFrame::Error(e) => WsStep::Fail(e.clone()),
        WsFrame::Other => WsStep::Continue,
    }
}

/// The error that a failed connection ends the session with.
pub fn ws_error(step: &WsStep) -> (r: Option<QqError>)
    ensures
        step matches WsStep::Fail(m) ==> (r matches Some(QqError::Ws(n)) && n@ == m@),
        !(step is Fail) ==> r is None,
{
    match step {
        WsStep::Fail(m) => Some(QqError::Ws(m.clone())),
        _ => None,
    }
}

/// Whether to connect again after a session ended: always, whether it failed,
/// was closed or the server asked for a new one, until shutdown is requested.
pub fn should_reconnect(cancelled: bool) -> (b: bool)
    ensures
        b == !cancelled,
{
    !cancelled
}

/// What happened while waiting for a heartbeat acknowledgement.
pub enum HeartbeatWait {
    Shutdown,
    TimedOut,
    Ack,
    AckChannelClosed,
}

/// What the heartbeat task does next.
#[derive(Debug, PartialEq, Eq)]
pub enum HeartbeatStep {
    /// Wait for the next interval.
    Continue,
    /// Stop the task.
    Stop,
    /// Report the missing acknowledgement, then stop.
    ReportTimeout,
}

/// After a heartbeat was sent: an acknowledgement continues, a timeout is
/// reported and stops, shutdown or a closed acknowledgement channel stops.
pub fn after_heartbeat(w: HeartbeatWait) -> (s: HeartbeatStep)
    ensures
        w is Ack ==> s == HeartbeatStep::Continue,
        w is TimedOut ==> s == HeartbeatStep::ReportTimeout,
        (w is Shutdown || w is AckChannelClosed) ==> s == HeartbeatStep::Stop,
{
    match w {
        HeartbeatWait::Ack => HeartbeatStep::Continue,
        HeartbeatWait::TimedOut => HeartbeatStep::ReportTimeout,
        HeartbeatWait::Shutdown => HeartbeatStep::Stop,
        HeartbeatWait::AckChannelClosed => HeartbeatStep::Stop,
    }
}

} // verus!
