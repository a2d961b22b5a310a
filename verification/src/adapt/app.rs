//! The state of the adapter-based application and the decisions its event
//! loop makes: where an event goes and which adapter carries out an action.
use vstd::prelude::*;

use crate::adapt::binding::{bind_spec, clone_strings, resolve_spec, ChannelBinding};
use crate::adapt::plugin::PluginManager;
use crate::bot::binding::strs;
use crate::config::ChannelEntry;
use crate::registry::AdapterRegistry;
use crate::sdk::{AdapterEvent, MessageMeta, PluginEvent};

verus! {

/// An adapter event together with the name of the adapter that delivered it.
pub struct AdapterEventWithName {
    pub adapter_name: String,
    pub event: AdapterEvent,
}

/// A plugin event together with the name of the adapter that should carry it out.
pub struct PluginEventWithName {
    pub adapter_name: String,
    pub event: PluginEvent,
}

/// The bindings after binding each channel of `chans` to its plugins for `name`.
pub open spec fn bind_all(
    b: Map<Seq<char>, Map<Seq<char>, Seq<Seq<char>>>>,
    name: Seq<char>,
    chans: Seq<ChannelEntry>,
) -> Map<Seq<char>, Map<Seq<char>, Seq<Seq<char>>>>
    decreases chans.len(),
{
    if chans.len() == 0 {
        b
    } else {
        bind_spec(
            bind_all(b, name, chans.drop_last()),
            name,
            chans.last().channel_id@,
            strs(chans.last().plugins@),
        )
    }
}

/// Adapters, plugins and channel bindings.
pub struct BotApp<A, P> {
    adapters: AdapterRegistry<A>,
    plugin_manager: PluginManager<P>,
    bindings: ChannelBinding,
}

impl<A, P> BotApp<A, P> {
    pub closed spec fn adapters(&self) -> Map<Seq<char>, A> {
        self.adapters.view()
    }

    pub closed spec fn plugins(&self) -> Map<Seq<char>, P> {
        self.plugin_manager.view()
    }

    pub closed spec fn bindings(&self) -> Map<Seq<char>, Map<Seq<char>, Seq<Seq<char>>>> {
        self.bindings.view()
    }

    /// No adapters, plugins or bindings.
    pub fn empty() -> (app: Self)
        ensures
            app.adapters() == Map::<Seq<char>, A>::empty(),
            app.plugins() == Map::<Seq<char>, P>::empty(),
            app.bindings() == Map::<Seq<char>, Map<Seq<char>, Seq<Seq<char>>>>::empty(),
    {
        BotApp {
            adapters: AdapterRegistry::new(),
            plugin_manager: PluginManager::new(),
            bindings: ChannelBinding::new(),
        }
    }

    /// Registers `adapter` under `name` and binds each of its channels.
    pub fn register_adapter(&mut self, name: &str, adapter: A, channels: &Vec<ChannelEntry>)
        ensures
            final(self).adapters() == old(self).adapters().insert(name@, adapter),
            final(self).bindings() == bind_all(old(self).bindings(), name@, channels@),
            final(self).plugins() == old(self).plugins(),
    {
        let mut i: usize = 0;
        while i < channels.len()
            invariant
                0 <= i <= channels@.len(),
                self.bindings.view() == bind_all(old(self).bindings.view(), name@, channels@.subrange(0, i as int)),
                self.adapters == old(self).adapters,
                self.plugin_manager == old(self).plugin_manager,
            decreases channels@.len() - i,
        {
            let ch = &channels[i];
            proof {
                assert(channels@.subrange(0, i + 1).drop_last() =~= channels@.subrange(0, i as int));
                assert(channels@.subrange(0, i + 1).last() == *ch);
            }
            self.bindings.add(name, ch.channel_id.clone(), clone_strings(&ch.plugins));
            i = i + 1;
        }
        assert(channels@.subrange(0, channels@.len() as int) =~= channels@);
        self.adapters.register(name, adapter);
    }

    /// Registers `plugin` under `name`.
    pub fn register_plugin(&mut self, name: &str, plugin: P)
        ensures
            final(self).plugins() == old(self).plugins().insert(name@, plugin),
            final(self).adapters() == old(self).adapters(),
            final(self).bindings() == old(self).bindings(),
    {
        self.plugin_manager.register(name, plugin);
    }

    /// Binds `plugins` to `channel_id` of adapter `name`.
    pub fn bind_channel(&mut self, name: &str, channel_id: &str, plugins: Vec<String>)
        ensures
            final(self).bindings() == bind_spec(old(self).bindings(), name@, channel_id@, strs(plugins@)),
            final(self).adapters() == old(self).adapters(),
            final(self).plugins() == old(self).plugins(),
    {
        self.bindings.add(name, channel_id.to_owned(), plugins);
    }

    /// Whether no channel is bound at all, so events reach no plugin.
    pub fn has_no_bindings(&self) -> (b: bool)
        ensures
            b == (self.bindings().dom() =~= Set::<Seq<char>>::empty()),
    {
        self.bindings.is_empty()
    }

    /// The plugins an event goes to: those bound to the sender's user id
    /// under the adapter that delivered it.
    pub fn route(&self, event: &AdapterEventWithName) -> (r: Vec<String>)
        ensures
            strs(r@) == resolve_spec(self.bindings(), event.adapter_name@, event.event.user_id()),
    {
        let user_id = match &event.event {
            AdapterEvent::Message(m) => match &m.meta {
                MessageMeta::Private(p) => &p.user_id,
            },
        };
        self.bindings.resolve(event.adapter_name.as_str(), user_id.as_str())
    }

    /// The registered plugins among `names`, in order, that an event is dispatched to.
    pub fn dispatch_targets<'a>(&'a self, names: &'a Vec<String>) -> (r: Vec<(&'a String, &'a P)>)
        ensures
            r@.map_values(|e: (&String, &P)| e.0@) == names@.map_values(|s: String| s@).filter(
                |s: Seq<char>| self.plugins().contains_key(s),
            ),
            forall|i: int| 0 <= i < r@.len() ==> *(#[trigger] r@[i]).1 == self.plugins()[r@[i].0@],
    {
        self.plugin_manager.dispatch_targets(names)
    }

    /// The adapter that carries out `action`: the one it names.
    pub fn adapter_for(&self, action: &PluginEventWithName) -> (r: Option<&A>)
        ensures
            r matches Some(a) ==> self.adapters().contains_key(action.adapter_name@) && *a == self.adapters()[action.adapter_name@],
            r is None <==> !self.adapters().contains_key(action.adapter_name@),
    {
        self.adapters.get(action.adapter_name.as_str())
    }

    /// Every registered adapter with its name.
    pub fn adapters_iter(&self) -> (r: Vec<(&String, &A)>)
        ensures
            forall|i: int| 0 <= i < r@.len() ==> self.adapters().contains_key((#[trigger] r@[i]).0@) && self.adapters()[r@[i].0@] == *r@[i].1,
            forall|k: Seq<char>| #[trigger] self.adapters().contains_key(k) ==> exists|i: int| 0 <= i < r@.len() && r@[i].0@ == k,
    {
        self.adapters.iter()
    }
}

/// The actions of an event, each to be carried out by the adapter that
/// delivered the event, in order.
pub fn plan_actions(adapter_name: &str, actions: Vec<PluginEvent>) -> (r: Vec<PluginEventWithName>)
    ensures
        r@.len() == actions@.len(),
        forall|i: int| 0 <= i < r@.len() ==> (#[trigger] r@[i]).adapter_name@ == adapter_name@ && r@[i].event == actions@[i],
{
    let ghost orig = actions@;
    let mut rest = actions;
    let mut r: Vec<PluginEventWithName> = Vec::new();
    while rest.len() > 0
        invariant
            r@.len() + rest@.len() == orig.len(),
            rest@ == orig.subrange(r@.len() as int, orig.len() as int),
            forall|i: int| 0 <= i < r@.len() ==> (#[trigger] r@[i]).adapter_name@ == adapter_name@ && r@[i].event == orig[i],
        decreases rest@.len(),
    {
        let e = rest.remove(0);
        r.push(PluginEventWithName { adapter_name: adapter_name.to_owned(), event: e });
        assert(rest@ =~= orig.subrange(r@.len() as int, orig.len() as int));
    }
    r
}

} // verus!
