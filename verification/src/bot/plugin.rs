//! Plugins, the factories that make them, and the registry of factories.
use vstd::prelude::*;

use crate::bot::events::{BotEvent, MessageContent};
use crate::name_map::NameMap;

verus! {

/// What a plugin answers: whether the conversation is over, and what to reply.
#[derive(Debug)]
pub struct Action {
    pub finish: bool,
    pub reply: Option<MessageContent>,
}

/// A plugin instance; a session keeps one for the length of a conversation.
pub trait Plugin: Sized {
    /// Handling `evt` in this state may answer `r` and leave the plugin in
    /// state `after`.
    spec fn spec_handles(&self, evt: BotEvent, after: Self, r: Result<Action, String>) -> bool;

    /// Handles one event of the conversation.
    fn handle(&mut self, evt: &BotEvent) -> (r: Result<Action, String>)
        ensures
            old(self).spec_handles(*evt, *final(self), r),
    ;
}

/// Makes plugin instances and decides which events start a conversation.
pub trait PluginFactory: Sized {
    type Instance: Plugin;

    /// Whether the factory's plugin takes up `evt`.
    spec fn spec_active(&self, evt: BotEvent) -> bool;

    /// Decides `spec_active`.
    fn active(&self, evt: &BotEvent) -> (b: bool)
        ensures
            b == self.spec_active(*evt),
    ;

    /// The factory promises that `create` always makes an instance.
    spec fn spec_always_creates(&self) -> bool;

    /// `p` is an instance this factory may make.
    spec fn spec_creates(&self, p: Self::Instance) -> bool;

    /// A new plugin instance, or why none could be made.
    fn create(&self) -> (r: Result<Self::Instance, String>)
        ensures
            self.spec_always_creates() ==> r is Ok,
            r matches Ok(p) ==> self.spec_creates(p),
    ;
}

/// The registered plugin factories, by name.
pub struct PluginManager<F: PluginFactory> {
    factories: NameMap<F>,
}

impl<F: PluginFactory> PluginManager<F> {
    /// The factories by name.
    pub closed spec fn view(&self) -> Map<Seq<char>, F> {
        self.factories@
    }

    /// The names of the factories, in the order they were first registered.
    pub closed spec fn name_order(&self) -> Seq<Seq<char>> {
        self.factories.entries().map_values(|e: (String, F)| e.0@)
    }

    /// No factories.
    pub fn new() -> (m: Self)
        ensures
            m.view() == Map::<Seq<char>, F>::empty(),
    {
        PluginManager { factories: NameMap::new() }
    }

    /// Registers `factory` under `name`, replacing an earlier one.
    pub fn register(&mut self, name: &str, factory: F)
        ensures
            final(self).view() == old(self).view().insert(name@, factory),
    {
        self.factories.insert(name.to_owned(), factory);
    }

    /// The names of all registered factories, each once, in registration order.
    pub fn names(&self) -> (r: Vec<String>)
        ensures
            r@.map_values(|s: String| s@) == self.name_order(),
            forall|x: Seq<char>| (exists|i: int| 0 <= i < r@.len() && (#[trigger] r@[i])@ == x) <==> self.view().contains_key(x),
            forall|i: int, j: int| 0 <= i < r@.len() && 0 <= j < r@.len() && i != j ==> r@[i]@ != r@[j]@,
    {
        let r = self.factories.keys();
        assert(r@.map_values(|s: String| s@) =~= self.name_order());
        r
    }

    /// A new instance of the plugin named `name`; `None` when no such factory
    /// is registered or it could not make one.
    pub fn get(&self, name: &str) -> (r: Option<F::Instance>)
        ensures
            !self.view().contains_key(name@) ==> r is None,
            self.view().contains_key(name@) && self.view()[name@].spec_always_creates() ==> r is Some,
            r matches Some(p) ==> self.view().contains_key(name@) && self.view()[name@].spec_creates(p),
    {
        match self.factories.get_str(name) {
            Some(f) => match f.create() {
                Ok(p) => Some(p),
                Err(_) => None,
            },
            None => None,
        }
    }

    /// Whether the plugin named `name` takes up `evt`; `false` for an unknown name.
    pub fn is_active(&self, name: &str, evt: &BotEvent) -> (b: bool)
        ensures
            b == (self.view().contains_key(name@) && self.view()[name@].spec_active(*evt)),
    {
        match self.factories.get_str(name) {
            Some(f) => f.active(evt),
            None => false,
        }
    }
}

} // verus!
