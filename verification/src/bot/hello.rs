//! The built-in `hello` plugin and the factory type that joins built-in
//! plugins with plugins from elsewhere.
use vstd::prelude::*;

use crate::bot::events::{BotEvent, MessageContent};
use crate::bot::plugin::{Action, Plugin, PluginFactory, PluginManager};
use crate::text::{chars_equal, chars_of, push_all, push_str, string_of, trim, trim_chars};

verus! {

/// The text of an event.
pub open spec fn event_text(evt: BotEvent) -> Seq<char> {
    match evt {
        BotEvent::Message(m) => m.content.text@,
    }
}

/// Whether the trimmed text of `evt` is exactly `word`.
pub fn trimmed_text_is(evt: &BotEvent, word: &str) -> (b: bool)
    ensures
        b == (trim(event_text(*evt)) == word@),
{
    let text = match evt {
        BotEvent::Message(m) => &m.content.text,
    };
    let t = trim_chars(&chars_of(text.as_str()));
    chars_equal(&t, &chars_of(word))
}

/// `"hello "` followed by `text`.
pub fn greeting(text: &Vec<char>) -> (s: String)
    ensures
        s@ == "hello "@ + text@,
{
    let mut v: Vec<char> = Vec::new();
    push_str(&mut v, "hello ");
    push_all(&mut v, text);
    string_of(&v)
}

/// `a` has the given `finish` and a reply of exactly `text`.
pub open spec fn action_is(a: Action, finish: bool, text: Seq<char>) -> bool {
    a.finish == finish && match a.reply {
        Some(c) => c.text@ == text,
        None => false,
    }
}

/// `r` succeeds with the given `finish` and a reply of exactly `text`.
pub open spec fn answers(r: Result<Action, String>, finish: bool, text: Seq<char>) -> bool {
    match r {
        Ok(a) => action_is(a, finish, text),
        Err(_) => false,
    }
}

/// Starts a conversation on the word `hello`.
pub struct HelloPluginFactory;

/// The `hello` conversation: greets first, then greets back with the next text.
pub struct HelloPlugin {
    pub i: bool,
}

impl Plugin for HelloPlugin {
    /// The first event is answered with `hi!`, which keeps the conversation
    /// open; a later one with `hello <text>`, which closes it.
    open spec fn spec_handles(&self, evt: BotEvent, after: Self, r: Result<Action, String>) -> bool {
        &&& after.i
        &&& !self.i ==> answers(r, false, "hi!"@)
        &&& self.i ==> answers(r, true, "hello "@ + event_text(evt))
    }

    /// The first event is answered with `hi!` and keeps the conversation open;
    /// a later one with `hello <text>`, which closes it.
    fn handle(&mut self, evt: &BotEvent) -> (r: Result<Action, String>)
        ensures
            final(self).i,
            !old(self).i ==> answers(r, false, "hi!"@),
            old(self).i ==> answers(r, true, "hello "@ + event_text(*evt)),
    {
        if self.i {
            let text = match evt {
                BotEvent::Message(m) => &m.content.text,
            };
            let reply = greeting(&chars_of(text.as_str()));
            Ok(Action { finish: true, reply: Some(MessageContent { text: reply }) })
        } else {
            self.i = true;
            Ok(Action { finish: false, reply: Some(MessageContent { text: String::from_str("hi!") }) })
        }
    }
}

impl PluginFactory for HelloPluginFactory {
    type Instance = HelloPlugin;

    open spec fn spec_active(&self, evt: BotEvent) -> bool {
        trim(event_text(evt)) == "hello"@
    }

    fn active(&self, evt: &BotEvent) -> (b: bool) {
        trimmed_text_is(evt, "hello")
    }

    open spec fn spec_always_creates(&self) -> bool {
        true
    }

    /// A fresh conversation that has not greeted yet.
    open spec fn spec_creates(&self, p: HelloPlugin) -> bool {
        !p.i
    }

    fn create(&self) -> (r: Result<HelloPlugin, String>)
        ensures
            (r matches Ok(p) && !p.i),
    {
        Ok(HelloPlugin { i: false })
    }
}

/// A factory that is either built in or of another kind `E`.
pub enum Factory<E> {
    Hello(HelloPluginFactory),
    External(E),
}

/// A plugin instance made by a `Factory`.
pub enum Instance<P> {
    Hello(HelloPlugin),
    External(P),
}

impl<P: Plugin> Plugin for Instance<P> {
    /// Each kind of instance handles events as its own plugin does.
    open spec fn spec_handles(&self, evt: BotEvent, after: Self, r: Result<Action, String>) -> bool {
        match (self, after) {
            (Instance::Hello(p), Instance::Hello(q)) => p.spec_handles(evt, q, r),
            (Instance::External(p), Instance::External(q)) => p.spec_handles(evt, q, r),
            _ => false,
        }
    }

    /// The built-in `hello` conversation answers as `HelloPlugin` does.
    fn handle(&mut self, evt: &BotEvent) -> (r: Result<Action, String>)
        ensures
            *old(self) matches Instance::Hello(p) ==> (*final(self) matches Instance::Hello(q) && q.i
                && (!p.i ==> answers(r, false, "hi!"@)) && (p.i ==> answers(
                r,
                true,
                "hello "@ + event_text(*evt),
            ))),
            *old(self) is External ==> *final(self) is External,
    {
        match self {
            Instance::Hello(p) => p.handle(evt),
            Instance::External(p) => p.handle(evt),
        }
    }
}

impl<E: PluginFactory> PluginFactory for Factory<E> {
    type Instance = Instance<E::Instance>;

    open spec fn spec_active(&self, evt: BotEvent) -> bool {
        match self {
            Factory::Hello(f) => f.spec_active(evt),
            Factory::External(f) => f.spec_active(evt),
        }
    }

    fn active(&self, evt: &BotEvent) -> (b: bool) {
        match self {
            Factory::Hello(f) => f.active(evt),
            Factory::External(f) => f.active(evt),
        }
    }

    open spec fn spec_always_creates(&self) -> bool {
        match self {
            Factory::Hello(f) => f.spec_always_creates(),
            Factory::External(f) => f.spec_always_creates(),
        }
    }

    open spec fn spec_creates(&self, p: Instance<E::Instance>) -> bool {
        match (self, p) {
            (Factory::Hello(f), Instance::Hello(q)) => f.spec_creates(q),
            (Factory::External(f), Instance::External(q)) => f.spec_creates(q),
            _ => false,
        }
    }

    /// The built-in factory makes a `hello` conversation that has not greeted yet.
    fn create(&self) -> (r: Result<Instance<E::Instance>, String>)
        ensures
            *self is Hello ==> (r matches Ok(Instance::Hello(p)) && !p.i),
            *self is External ==> (r matches Ok(i) ==> i is External),
    {
        match self {
            Factory::Hello(f) => match f.create() {
                Ok(p) => Ok(Instance::Hello(p)),
                Err(e) => Err(e),
            },
            Factory::External(f) => match f.create() {
                Ok(p) => Ok(Instance::External(p)),
                Err(e) => Err(e),
            },
        }
    }
}

/// Registers the built-in plugins: `hello`.
pub fn register_builtins<E: PluginFactory>(mgr: &mut PluginManager<Factory<E>>)
    ensures
        final(mgr).view() == old(mgr).view().insert("hello"@, Factory::Hello(HelloPluginFactory)),
{
    mgr.register("hello", Factory::Hello(HelloPluginFactory));
}

} // verus!
