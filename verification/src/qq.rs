//! The QQ bot platform: wire types, errors, event conversion, HTTP request
//! pieces and the decisions of the WebSocket session.
pub mod api;
pub mod converter;
pub mod error;
pub mod types;
pub mod ws;
