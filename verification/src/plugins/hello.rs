//! The `hello` plugin: asks for a name, or greets the one given.
use vstd::prelude::*;

use crate::bot::events::{BotEvent, MessageContent};
use crate::bot::hello::{event_text, greeting, trimmed_text_is};
use crate::bot::plugin::Action;
use crate::text::{chars_of, trim, trim_chars};

verus! {

/// The `hello` plugin.
pub struct HelloPlugin;

impl HelloPlugin {
    /// Takes up a message whose trimmed text is `hello`.
    pub fn active(evt: BotEvent) -> (b: bool)
        ensures
            b == (trim(event_text(evt)) == "hello"@),
    {
        trimmed_text_is(&evt, "hello")
    }

    /// An empty (trimmed) text is answered by asking for a name and keeps the
    /// conversation open; any other is greeted with `hello <text>`, which ends it.
    pub fn handle(evt: BotEvent) -> (a: Action)
        ensures
            trim(event_text(evt)).len() == 0 ==> !a.finish && (a.reply matches Some(c) && c.text@
                == "你的名字是什么?"@),
            trim(event_text(evt)).len() > 0 ==> a.finish && (a.reply matches Some(c) && c.text@
                == "hello "@ + trim(event_text(evt))),
    {
        let text = match &evt {
            BotEvent::Message(m) => &m.content.text,
        };
        let t = trim_chars(&chars_of(text.as_str()));
        if t.len() == 0 {
            Action {
                finish: false,
                reply: Some(MessageContent { text: String::from_str("你的名字是什么?") }),
            }
        } else {
            Action { finish: true, reply: Some(MessageContent { text: greeting(&t) }) }
        }
    }
}

} // verus!
