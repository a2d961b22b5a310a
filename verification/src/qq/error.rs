//! Errors of the QQ platform.
use vstd::prelude::*;

verus! {

/// `reqwest::Error`: a failed HTTP exchange.
#[verifier::external_type_specification]
#[verifier::external_body]
pub struct ExReqwestError(reqwest::Error);

/// `serde_json::Error`: JSON that could not be read or written.
#[verifier::external_type_specification]
#[verifier::external_body]
pub struct ExJsonError(serde_json::Error);

/// `toml::de::Error`: a configuration that could not be read.
#[verifier::external_type_specification]
#[verifier::external_body]
pub struct ExTomlDeError(toml::de::Error);

/// What can go wrong talking to QQ.
#[derive(Debug)]
pub enum QqError {
    Http(reqwest::Error),
    Ws(String),
    Json(serde_json::Error),
    Auth(String),
    Connection(String),
    SendMessage(String),
    Config(toml::de::Error),
}

} // verus!
