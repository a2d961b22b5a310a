//! Records of the QQ HTTP API and WebSocket protocol.
use vstd::prelude::*;

verus! {

/// `serde_json::Value`: a JSON value, carried through untouched.
#[verifier::external_type_specification]
#[verifier::external_body]
pub struct ExJsonValue(serde_json::Value);

/// The credentials of a QQ bot.
pub struct QQConfig {
    pub app_id: String,
    pub client_secret: String,
}

/// Body of the access token request.
#[derive(Debug, Clone, PartialEq, Eq)]
pub struct AccessTokenRequest {
    pub app_id: String,
    pub client_secret: String,
}

/// Answer to the access token request; `expires_in` is in seconds.
#[derive(Debug, Clone, PartialEq, Eq)]
pub struct AccessTokenResponse {
    pub access_token: String,
    pub expires_in: i64,
}

/// Answer to the gateway request: the WebSocket address.
#[derive(Debug, Clone, PartialEq, Eq)]
pub struct GatewayResponse {
    pub url: String,
}

/// Body of a message sent to a user.
#[derive(Debug, Clone, PartialEq, Eq)]
pub struct SendMessageRequest {
    pub content: String,
    pub msg_type: i32,
    pub msg_id: Option<String>,
    pub msg_seq: Option<i32>,
}

/// Answer to a sent message.
#[derive(Debug, Clone, PartialEq, Eq)]
pub struct SendMessageResponse {
    pub id: String,
    pub timestamp: String,
}

/// A frame received on the WebSocket: opcode, data, sequence number, event type.
#[derive(Debug)]
pub struct WsPayload {
    pub op: i32,
    pub d: serde_json::Value,
    pub s: Option<i64>,
    pub t: Option<String>,
    pub id: Option<String>,
}

/// A frame sent on the WebSocket.
#[derive(Debug)]
pub struct WsSend {
    pub op: i32,
    pub d: Option<serde_json::Value>,
    pub s: Option<i64>,
    pub t: Option<String>,
}

/// Data of the Hello frame (opcode 10).
#[derive(Debug, Clone, PartialEq, Eq)]
pub struct HelloData {
    pub heartbeat_interval: u64,
}

/// Data of the Identify frame (opcode 2).
#[derive(Debug)]
pub struct IdentifyData {
    pub token: String,
    pub intents: i64,
    pub shard: [i32; 2],
    pub properties: Option<serde_json::Value>,
}

/// Data of the READY dispatch.
#[derive(Debug, Clone, PartialEq, Eq)]
pub struct ReadyData {
    pub version: i32,
    pub session_id: String,
    pub user: ReadyUser,
    pub shard: Option<Vec<i32>>,
}

/// The bot's own account, as READY reports it.
#[derive(Debug, Clone, PartialEq, Eq)]
pub struct ReadyUser {
    pub id: String,
    pub username: String,
    pub bot: bool,
}

/// Data of a C2C_MESSAGE_CREATE dispatch: a private message to the bot.
#[derive(Debug, Clone, PartialEq, Eq)]
pub struct C2cMessageData {
    pub id: String,
    pub author: C2cAuthor,
    pub content: String,
    pub timestamp: String,
}

/// The sender of a private message.
#[derive(Debug, Clone, PartialEq, Eq)]
pub struct C2cAuthor {
    pub user_openid: String,
}

} // verus!
