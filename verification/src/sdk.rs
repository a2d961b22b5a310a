//! Types exchanged between adapters, the core and plugins.
use vstd::prelude::*;

verus! {

/// Text of a message.
#[derive(Debug, Clone, PartialEq, Eq)]
pub struct MessageContent {
    pub text: String,
}

/// Where a private message comes from.
#[derive(Debug, Clone, PartialEq, Eq)]
pub struct PrivateMeta {
    pub user_id: String,
}

/// Where a message comes from; only private messages exist so far.
#[derive(Debug, Clone, PartialEq, Eq)]
pub enum MessageMeta {
    Private(PrivateMeta),
}

/// A message: its origin and its content.
#[derive(Debug, Clone, PartialEq, Eq)]
pub struct MessageEvent {
    pub meta: MessageMeta,
    pub content: MessageContent,
}

/// An event that an adapter delivers to the core.
#[derive(Debug, Clone, PartialEq, Eq)]
pub enum AdapterEvent {
    Message(MessageEvent),
}

/// An event that a plugin hands to the core to carry out.
#[derive(Debug, Clone, PartialEq, Eq)]
pub enum PluginEvent {
    Message(MessageEvent),
}

/// Where a reply goes.
#[derive(Debug, Clone, PartialEq, Eq)]
pub struct MessageTarget {
    pub platform: String,
    pub user_id: String,
    pub group_id: Option<String>,
    pub channel_id: Option<String>,
    pub adapter_instance: Option<String>,
}

/// What a plugin asks for.
#[derive(Debug, Clone, PartialEq, Eq)]
pub enum Action {
    SendMessage { target: MessageTarget, content: MessageContent },
    Noop,
}

impl AdapterEvent {
    /// The user id of the message's origin.
    pub open spec fn user_id(&self) -> Seq<char> {
        match self {
            AdapterEvent::Message(m) => match m.meta {
                MessageMeta::Private(p) => p.user_id@,
            },
        }
    }

    /// The message's text.
    pub open spec fn text(&self) -> Seq<char> {
        match self {
            AdapterEvent::Message(m) => m.content.text@,
        }
    }
}

/// A message to the private user `user_id` with the given text.
pub fn private_message(user_id: String, text: String) -> (m: MessageEvent)
    ensures
        m.meta == MessageMeta::Private(PrivateMeta { user_id }),
        m.content.text == text,
{
    MessageEvent {
        meta: MessageMeta::Private(PrivateMeta { user_id }),
        content: MessageContent { text },
    }
}

} // verus!
