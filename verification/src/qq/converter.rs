//! QQ events into adapter events.
use vstd::prelude::*;

use crate::qq::types::C2cMessageData;
use crate::sdk::{AdapterEvent, MessageContent, MessageEvent, MessageMeta, PrivateMeta};

verus! {

/// A private message to the bot becomes a message event from its sender's
/// openid with its content.
pub fn c2c_message_create(data: &C2cMessageData) -> (e: AdapterEvent)
    ensures
        e.user_id() == data.author.user_openid@,
        e.text() == data.content@,
{
    AdapterEvent::Message(
        MessageEvent {
            meta: MessageMeta::Private(PrivateMeta { user_id: data.author.user_openid.clone() }),
            content: MessageContent { text: data.content.clone() },
        },
    )
}

} // verus!
