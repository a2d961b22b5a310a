//! Events that bots deliver and messages that plugins send back.
use vstd::prelude::*;

verus! {

/// Text of a message.
#[derive(Debug, Clone, PartialEq, Eq)]
pub struct MessageContent {
    pub text: String,
}

/// A message: where it comes from or goes to, and its content.
#[derive(Debug, Clone, PartialEq, Eq)]
pub struct Message {
    pub target_type: String,
    pub target: String,
    pub content: MessageContent,
}

/// An event delivered by a bot.
#[derive(Debug, Clone, PartialEq, Eq)]
pub enum BotEvent {
    Message(Message),
}

/// An event produced by a plugin.
#[derive(Debug, Clone, PartialEq, Eq)]
pub enum PluginEvent {
    Message(Message),
}

/// A bot event together with the name of the adapter that delivered it.
#[derive(Debug, Clone, PartialEq, Eq)]
pub struct AdapterEventWithName {
    pub adapter_name: String,
    pub event: BotEvent,
}

/// A plugin event together with the name of the adapter that should carry it out.
#[derive(Debug, Clone, PartialEq, Eq)]
pub struct PluginEventWithName {
    pub adapter_name: String,
    pub event: PluginEvent,
}

impl MessageContent {
    /// A copy with the same text.
    pub fn copy(&self) -> (r: Self)
        ensures
            r.text@ == self.text@,
    {
        MessageContent { text: self.text.clone() }
    }
}

impl Message {
    /// A copy with the same fields.
    pub fn copy(&self) -> (r: Self)
        ensures
            r.target_type@ == self.target_type@,
            r.target@ == self.target@,
            r.content.text@ == self.content.text@,
    {
        Message {
            target_type: self.target_type.clone(),
            target: self.target.clone(),
            content: self.content.copy(),
        }
    }
}

} // verus!
