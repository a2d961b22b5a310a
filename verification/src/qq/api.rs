//! The pieces of QQ HTTP API calls: addresses, headers, bodies, the cached
//! access token and the errors made from failed answers.
use vstd::prelude::*;

use crate::qq::error::QqError;
use crate::qq::types::{AccessTokenRequest, SendMessageRequest};
use crate::text::{chars_of, decimal, push_all, push_str, string_of, truncate_bytes, u64_decimal, utf8_size};

verus! {

/// Where access tokens are requested.
pub const TOKEN_URL: &'static str = "https://bots.qq.com/app/getAppAccessToken";

/// Where the WebSocket address is requested.
pub const GATEWAY_URL: &'static str = "https://api.sgroup.qq.com/gateway";

/// Base of the message API.
pub const API_BASE: &'static str = "https://api.sgroup.qq.com";

/// How long before it expires a token is refreshed, in milliseconds.
pub const REFRESH_BEFORE_MS: i128 = 60000i128;

/// How much of an error answer's body goes into an error message, in bytes.
pub const BODY_EXCERPT_BYTES: usize = 200usize;

/// An access token and when it must be refreshed, in milliseconds on the
/// caller's monotonic clock.
pub struct CachedToken {
    pub access_token: String,
    pub expires_at_ms: i128,
}

/// The token that a cache entry serves at `now`: its own while `now` is
/// before its refresh time.
pub open spec fn fresh_spec(c: Option<CachedToken>, now: int) -> Option<Seq<char>> {
    match c {
        Some(t) => if t.expires_at_ms > now {
            Some(t.access_token@)
        } else {
            None
        },
        None => None,
    }
}

/// A token obtained at `stored_at` that lives `expires_in` seconds is served
/// from the cache until one minute before it expires, and not from then on.
pub proof fn law_token_fresh_until_refresh(c: CachedToken, stored_at: u64, expires_in: i64, now: u64)
    requires
        expires_in >= 0,
        c.expires_at_ms == stored_at + expires_in * 1000 - REFRESH_BEFORE_MS,
    ensures
        now < stored_at + expires_in * 1000 - 60000 ==> fresh_spec(Some(c), now as int) == Some(
            c.access_token@,
        ),
        now >= stored_at + expires_in * 1000 - 60000 ==> fresh_spec(Some(c), now as int) is None,
{
}

/// The cached access token, if any.
pub struct TokenCache {
    pub cached: Option<CachedToken>,
}

impl TokenCache {
    /// No token.
    pub fn new() -> (c: Self)
        ensures
            c.cached is None,
    {
        TokenCache { cached: None }
    }

    /// The cached token while it is still fresh at `now_ms`.
    pub fn fresh_token(&self, now_ms: u64) -> (r: Option<String>)
        ensures
            r matches Some(t) ==> fresh_spec(self.cached, now_ms as int) == Some(t@),
            r is None ==> fresh_spec(self.cached, now_ms as int) is None,
    {
        match &self.cached {
            Some(c) => {
                if c.expires_at_ms > now_ms as i128 {
                    Some(c.access_token.clone())
                } else {
                    None
                }
            },
            None => None,
        }
    }

    /// Caches a token obtained at `now_ms` that lives `expires_in` seconds; it
    /// is refreshed a minute before it expires.
    pub fn store(&mut self, access_token: String, expires_in: i64, now_ms: u64)
        requires
            expires_in >= 0,
        ensures
            final(self).cached matches Some(c) && c.access_token == access_token
                && c.expires_at_ms == now_ms + expires_in * 1000 - REFRESH_BEFORE_MS,
    {
        let at: i128 = now_ms as i128 + expires_in as i128 * 1000 - REFRESH_BEFORE_MS;
        self.cached = Some(CachedToken { access_token, expires_at_ms: at });
    }
}

/// `t` is `s` cut after at most `max` bytes, between two characters.
pub open spec fn excerpt_of(s: Seq<char>, max: nat, t: Seq<char>) -> bool {
    exists|k: int|
        0 <= k <= s.len() && t == s.subrange(0, k) && (utf8_size(s.subrange(0, k)) == max || (k
            == s.len() && utf8_size(s) <= max))
}

/// `s` can be cut after at most `max` bytes without splitting a character:
/// it is no longer than that, or some prefix is exactly that long.
pub open spec fn cut_on_char(s: Seq<char>, max: nat) -> bool {
    utf8_size(s) <= max || exists|k: int| 0 <= k <= s.len() && utf8_size(s.subrange(0, k)) == max
}

/// `<prefix>HTTP <status>: <body>`.
pub open spec fn http_error_text(prefix: Seq<char>, status: u16, body: Seq<char>) -> Seq<char> {
    prefix + "HTTP "@ + decimal(status as nat) + ": "@ + body
}

fn http_error_string(prefix: &str, status: u16, body: &str) -> (s: String)
    ensures
        s@ == http_error_text(prefix@, status, body@),
{
    let mut v: Vec<char> = Vec::new();
    push_str(&mut v, prefix);
    push_str(&mut v, "HTTP ");
    let d = u64_decimal(status as u64);
    push_all(&mut v, &d);
    push_str(&mut v, ": ");
    push_str(&mut v, body);
    string_of(&v)
}

/// The error for a refused token request: its status and at most the first
/// 200 bytes of the answer, which must end between two characters.
pub fn token_error(status: u16, body: &str) -> (e: QqError)
    requires
        cut_on_char(body@, 200),
    ensures
        e matches QqError::Auth(m) && exists|t: Seq<char>|
            excerpt_of(body@, 200, t) && m@ == http_error_text("Token 获取失败 "@, status, t),
{
    match truncate_bytes(body, BODY_EXCERPT_BYTES) {
        Some(t) => QqError::Auth(http_error_string("Token 获取失败 ", status, t)),
        None => {
            proof {
                let k = choose|k: int| 0 <= k <= body@.len() && utf8_size(body@.subrange(0, k)) == 200;
                assert(utf8_size(body@.subrange(0, k)) != 200);
            }
            QqError::Auth(String::new())
        },
    }
}

/// The error for a refused gateway request: its status and at most the first
/// 200 bytes of the answer, which must end between two characters.
pub fn gateway_error(status: u16, body: &str) -> (e: QqError)
    requires
        cut_on_char(body@, 200),
    ensures
        e matches QqError::Connection(m) && exists|t: Seq<char>|
            excerpt_of(body@, 200, t) && m@ == http_error_text("Gateway 获取失败 "@, status, t),
{
    match truncate_bytes(body, BODY_EXCERPT_BYTES) {
        Some(t) => QqError::Connection(http_error_string("Gateway 获取失败 ", status, t)),
        None => {
            proof {
                let k = choose|k: int| 0 <= k <= body@.len() && utf8_size(body@.subrange(0, k)) == 200;
                assert(utf8_size(body@.subrange(0, k)) != 200);
            }
            QqError::Connection(String::new())
        },
    }
}

/// The error for a refused message: its status and the whole answer.
pub fn send_error(status: u16, text: &str) -> (e: QqError)
    ensures
        e matches QqError::SendMessage(m) && m@ == http_error_text(""@, status, text@),
{
    QqError::SendMessage(http_error_string("", status, text))
}

/// The authorization header value for a token: `QQBot <token>`.
pub fn auth_header(token: &str) -> (s: String)
    ensures
        s@ == "QQBot "@ + token@,
{
    let mut v: Vec<char> = Vec::new();
    push_str(&mut v, "QQBot ");
    push_str(&mut v, token);
    string_of(&v)
}

/// Where a private message to `openid` is posted.
pub fn c2c_message_url(openid: &str) -> (s: String)
    ensures
        s@ == API_BASE@ + "/v2/users/"@ + openid@ + "/messages"@,
{
    let mut v: Vec<char> = Vec::new();
    push_str(&mut v, API_BASE);
    push_str(&mut v, "/v2/users/");
    push_str(&mut v, openid);
    push_str(&mut v, "/messages");
    string_of(&v)
}

/// The body of a text message, optionally in reply to message `msg_id`.
pub fn send_message_request(content: &str, msg_id: Option<&str>) -> (r: SendMessageRequest)
    ensures
        r.content@ == content@,
        r.msg_type == 0,
        msg_id is None ==> r.msg_id is None,
        msg_id matches Some(m) ==> (r.msg_id matches Some(n) && n@ == m@),
        r.msg_seq is None,
{
    SendMessageRequest {
        content: content.to_owned(),
        msg_type: 0,
        msg_id: match msg_id {
            Some(m) => Some(m.to_owned()),
            None => None,
        },
        msg_seq: None,
    }
}

/// The body of an access token request.
pub fn token_request(app_id: &str, client_secret: &str) -> (r: AccessTokenRequest)
    ensures
        r.app_id@ == app_id@,
        r.client_secret@ == client_secret@,
{
    AccessTokenRequest { app_id: app_id.to_owned(), client_secret: client_secret.to_owned() }
}

} // verus!
