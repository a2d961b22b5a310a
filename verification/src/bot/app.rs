//! What the application does with one event from a bot: the built-in command,
//! the conversation in progress, or the first plugin that takes it up.
use vstd::prelude::*;

use crate::bot::binding::{bound, strs, Bindings};
use crate::bot::events::{BotEvent, Message, MessageContent};
use crate::bot::hello::{action_is, answers, event_text, trimmed_text_is};
use crate::bot::plugin::{Action, Plugin, PluginFactory, PluginManager};
use crate::bot::session::{Session, SessionKey, SessionMgr};
use crate::config::BindingConfig;
use crate::text::trim;

verus! {

/// Who answered an event.
#[derive(Debug)]
pub enum Route {
    /// The built-in `/ping` command.
    Builtin,
    /// The plugin of the conversation in progress.
    Session,
    /// A newly chosen plugin, by name.
    Plugin(String),
    /// Nobody.
    Unhandled,
}

/// The handling of one event: who answered, with what, and the message to send.
pub struct Turn {
    pub route: Route,
    pub outcome: Result<Action, String>,
    pub reply: Option<Message>,
    /// For each candidate plugin tried in turn: `None` when it was not active,
    /// else whether its factory made an instance.
    pub tried: Ghost<Seq<Option<bool>>>,
}

/// The message of an event.
pub open spec fn event_message(evt: BotEvent) -> Message {
    match evt {
        BotEvent::Message(m) => m,
    }
}

/// The conversation key of an event from bot `bid`.
pub open spec fn event_key(bid: Seq<char>, evt: BotEvent) -> SessionKey {
    (bid, event_message(evt).target_type@, event_message(evt).target@)
}

/// `reply` is the reply that `outcome` asks for, sent back to where `msg` came from.
pub open spec fn reply_of(reply: Option<Message>, msg: Message, outcome: Result<Action, String>) -> bool {
    match outcome {
        Ok(a) => match a.reply {
            Some(c) => match reply {
                Some(r) => r.target@ == msg.target@ && r.target_type@ == msg.target_type@
                    && r.content.text@ == c.text@,
                None => false,
            },
            None => reply is None,
        },
        Err(_) => reply is None,
    }
}

/// The outcome ends the conversation: an error, or an action that finishes.
pub open spec fn ends(outcome: Result<Action, String>) -> bool {
    match outcome {
        Ok(a) => a.finish,
        Err(_) => true,
    }
}

/// The event is the built-in `/ping` command.
pub open spec fn is_ping(evt: BotEvent) -> bool {
    trim(event_text(evt)) == "/ping"@
}

/// How handling one event with conversation key `key` changes the
/// conversations `before` into `after`. The built-in command (`ping`) comes
/// first and changes nothing. Otherwise a conversation in progress at `key`
/// takes the event, and is closed when the outcome ends it; with none, a newly
/// chosen plugin opens one at `key` when its outcome does not end, and an
/// unhandled event changes nothing. Conversations at other keys stay as they were.
pub open spec fn session_step<P>(
    before: Map<SessionKey, Session<P>>,
    key: SessionKey,
    ping: bool,
    route: Route,
    outcome: Result<Action, String>,
    after: Map<SessionKey, Session<P>>,
) -> bool {
    &&& (route is Builtin) <==> ping
    &&& route is Builtin ==> after == before
    &&& (route is Session) <==> !ping && before.contains_key(key)
    &&& route is Session && ends(outcome) ==> after == before.remove(key)
    &&& route is Session && !ends(outcome) ==> after.dom() == before.dom()
    &&& route is Plugin ==> !ping && !before.contains_key(key)
    &&& route is Plugin && ends(outcome) ==> after == before
    &&& route is Plugin && !ends(outcome) ==> after.dom() == before.dom().insert(key)
    &&& route is Unhandled ==> !ping && !before.contains_key(key) && after == before
    &&& forall|k: SessionKey|
        k != key && #[trigger] before.contains_key(k) ==> after.contains_key(k) && after[k]
            == before[k]
}

/// A conversation that a plugin or an earlier turn left open takes the next
/// event with the same key that is not the built-in command.
pub proof fn law_open_conversation_takes_next<P>(
    s0: Map<SessionKey, Session<P>>,
    key: SessionKey,
    ping1: bool,
    r1: Route,
    o1: Result<Action, String>,
    s1: Map<SessionKey, Session<P>>,
    r2: Route,
    o2: Result<Action, String>,
    s2: Map<SessionKey, Session<P>>,
)
    requires
        session_step(s0, key, ping1, r1, o1, s1),
        r1 is Plugin || r1 is Session,
        !ends(o1),
        session_step(s1, key, false, r2, o2, s2),
    ensures
        r2 is Session,
{
    assert(s1.dom().contains(key));
}

/// A conversation whose outcome ends it no longer takes the next event with
/// the same key: that one goes to plugin selection again.
pub proof fn law_ended_conversation_closes<P>(
    s0: Map<SessionKey, Session<P>>,
    key: SessionKey,
    o1: Result<Action, String>,
    s1: Map<SessionKey, Session<P>>,
    r2: Route,
    o2: Result<Action, String>,
    s2: Map<SessionKey, Session<P>>,
)
    requires
        session_step(s0, key, false, Route::Session, o1, s1),
        ends(o1),
        session_step(s1, key, false, r2, o2, s2),
    ensures
        !(r2 is Session),
        !s1.contains_key(key),
{
}

/// `t` records how the candidate `n` was tried for `evt`: `None` when its
/// factory is not registered or not active for the event; `Some(made)` when
/// it is, `made` telling whether an instance was made, which the factory
/// promises whenever it promises always to create.
pub open spec fn tried_as<F: PluginFactory>(
    t: Option<bool>,
    factories: Map<Seq<char>, F>,
    n: Seq<char>,
    evt: BotEvent,
) -> bool {
    match t {
        None => !(factories.contains_key(n) && factories[n].spec_active(evt)),
        Some(made) => factories.contains_key(n) && factories[n].spec_active(evt) && (!made
            ==> !factories[n].spec_always_creates()),
    }
}

/// The message to send for `outcome`, back to where `msg` came from.
fn reply_for(msg: &Message, outcome: &Result<Action, String>) -> (r: Option<Message>)
    ensures
        reply_of(r, *msg, *outcome),
{
    match outcome {
        Ok(a) => match &a.reply {
            Some(c) => Some(
                Message {
                    target: msg.target.clone(),
                    target_type: msg.target_type.clone(),
                    content: c.copy(),
                },
            ),
            None => None,
        },
        Err(_) => None,
    }
}

/// The bot application's state: bindings, conversations and plugin factories.
pub struct BotApp<F: PluginFactory> {
    bindings: Bindings,
    session_mgr: SessionMgr<F::Instance>,
    plugin_mgr: PluginManager<F>,
}

impl<F: PluginFactory> BotApp<F> {
    pub closed spec fn bindings(&self) -> Bindings {
        self.bindings
    }

    pub closed spec fn sessions(&self) -> Map<SessionKey, Session<F::Instance>> {
        self.session_mgr.view()
    }

    pub closed spec fn factories(&self) -> Map<Seq<char>, F> {
        self.plugin_mgr.view()
    }

    /// The names of the factories, in registration order.
    pub closed spec fn plugin_names(&self) -> Seq<Seq<char>> {
        self.plugin_mgr.name_order()
    }

    /// The plugins, in the order they are tried, for an event from bot `bid`:
    /// the plugin list of the bindings over the registered names.
    pub open spec fn candidates(&self, bid: Seq<char>, evt: BotEvent) -> Seq<Seq<char>> {
        crate::bot::binding::plugin_list(
            self.bindings().view(),
            bid,
            event_message(evt).target_type@,
            event_message(evt).target@,
            self.plugin_names(),
        )
    }

    /// The factory named `n` is registered, takes up `evt` and promises an instance.
    pub open spec fn sure_taker(&self, n: Seq<char>, evt: BotEvent) -> bool {
        &&& self.factories().contains_key(n)
        &&& self.factories()[n].spec_active(evt)
        &&& self.factories()[n].spec_always_creates()
    }

    /// An application with the enabled bindings of `cfg`, no conversation and
    /// no plugin factory.
    pub fn from_config(cfg: Vec<BindingConfig>) -> (app: Self)
        ensures
            app.bindings().view() == crate::bot::binding::enabled_bindings(cfg@),
            app.sessions() == Map::<SessionKey, crate::bot::session::Session<F::Instance>>::empty(),
            app.factories() == Map::<Seq<char>, F>::empty(),
    {
        BotApp {
            bindings: Bindings::new(cfg),
            session_mgr: SessionMgr::new(),
            plugin_mgr: PluginManager::new(),
        }
    }

    /// Registers a plugin factory under `name`.
    pub fn register_plugin(&mut self, name: &str, factory: F)
        ensures
            final(self).factories() == old(self).factories().insert(name@, factory),
            final(self).sessions() == old(self).sessions(),
            final(self).bindings() == old(self).bindings(),
    {
        self.plugin_mgr.register(name, factory);
    }

    /// The built-in command: `/ping` (surrounding whitespace ignored) is
    /// answered with `pong!` and finishes.
    pub fn handle_builtin(&self, evt: &BotEvent) -> (r: Option<Action>)
        ensures
            r is Some <==> is_ping(*evt),
            r matches Some(a) ==> action_is(a, true, "pong!"@),
    {
        if trimmed_text_is(evt, "/ping") {
            Some(Action { finish: true, reply: Some(MessageContent { text: String::from_str("pong!") }) })
        } else {
            None
        }
    }
}

impl<E: PluginFactory> BotApp<crate::bot::hello::Factory<E>> {
    /// Registers the built-in plugins.
    pub fn register_builtins(&mut self)
        ensures
            final(self).factories() == old(self).factories().insert(
                "hello"@,
                crate::bot::hello::Factory::Hello(crate::bot::hello::HelloPluginFactory),
            ),
            final(self).sessions() == old(self).sessions(),
            final(self).bindings() == old(self).bindings(),
    {
        crate::bot::hello::register_builtins(&mut self.plugin_mgr);
    }
}

impl<F: PluginFactory> BotApp<F> {
    /// Handles one event from bot `bid`. The built-in command comes first; then
    /// the conversation in progress at the event's key, which an error or a
    /// finishing action ends; then the first plugin in the binding list of the
    /// event that is active for it and can be made, which starts a conversation
    /// when its action does not finish.
    pub fn handle_event(&mut self, bid: &str, evt: &BotEvent) -> (t: Turn)
        ensures
            reply_of(t.reply, event_message(*evt), t.outcome),
            final(self).bindings() == old(self).bindings(),
            final(self).factories() == old(self).factories(),
            session_step(
                old(self).sessions(),
                event_key(bid@, *evt),
                is_ping(*evt),
                t.route,
                t.outcome,
                final(self).sessions(),
            ),
            t.route is Builtin ==> answers(t.outcome, true, "pong!"@),
            t.route matches Route::Plugin(n) ==> old(self).factories().contains_key(n@) && old(
                self,
            ).factories()[n@].spec_active(*evt) && bound(
                old(self).bindings().view(),
                bid@,
                event_message(*evt).target_type@,
                event_message(*evt).target@,
                n@,
            ),
            t.route is Unhandled ==> t.outcome == Ok::<Action, String>(
                Action { finish: true, reply: None },
            ),
            t.route is Session ==> exists|p: F::Instance|
                old(self).sessions()[event_key(bid@, *evt)].plugin.spec_handles(*evt, p, t.outcome)
                    && (!ends(t.outcome) ==> final(self).sessions()[event_key(bid@, *evt)].plugin
                    == p),
            (t.route is Builtin || t.route is Session) ==> t.tried@ == Seq::<Option<bool>>::empty(),
            t.route matches Route::Plugin(n) ==> {
                let l = old(self).candidates(bid@, *evt);
                let k = t.tried@.len() - 1;
                &&& 0 < t.tried@.len() <= l.len()
                &&& l[k] == n@
                &&& t.tried@[k] == Some(true)
                &&& forall|j: int| 0 <= j < k ==> #[trigger] t.tried@[j] != Some(true)
                &&& forall|j: int| 0 <= j < t.tried@.len() ==> tried_as(
                    #[trigger] t.tried@[j],
                    old(self).factories(),
                    l[j],
                    *evt,
                )
            },
            t.route is Unhandled ==> {
                let l = old(self).candidates(bid@, *evt);
                &&& t.tried@.len() == l.len()
                &&& forall|j: int| 0 <= j < l.len() ==> #[trigger] t.tried@[j] != Some(true)
                &&& forall|j: int| 0 <= j < l.len() ==> tried_as(
                    #[trigger] t.tried@[j],
                    old(self).factories(),
                    l[j],
                    *evt,
                )
            },
            t.route matches Route::Plugin(n) ==> exists|i: int|
                0 <= i < old(self).candidates(bid@, *evt).len() && old(self).candidates(
                    bid@,
                    *evt,
                )[i] == n@ && forall|j: int|
                    0 <= j < i ==> !old(self).sure_taker(
                        #[trigger] old(self).candidates(bid@, *evt)[j],
                        *evt,
                    ),
            t.route matches Route::Plugin(n) ==> exists|p0: F::Instance, p1: F::Instance|
                old(self).factories()[n@].spec_creates(p0) && p0.spec_handles(*evt, p1, t.outcome)
                    && (!ends(t.outcome) ==> {
                    let s = final(self).sessions()[event_key(bid@, *evt)];
                    &&& s.plugin == p1
                    &&& s.bid@ == bid@
                    &&& s.target_type@ == event_message(*evt).target_type@
                    &&& s.target_id@ == event_message(*evt).target@
                }),
            t.route is Unhandled && !is_ping(*evt) ==> forall|j: int|
                0 <= j < old(self).candidates(bid@, *evt).len() ==> !old(self).sure_taker(
                    #[trigger] old(self).candidates(bid@, *evt)[j],
                    *evt,
                ),
            t.route is Unhandled && !is_ping(*evt) ==> forall|n: Seq<char>|
                #[trigger] old(self).factories().contains_key(n) && bound(
                    old(self).bindings().view(),
                    bid@,
                    event_message(*evt).target_type@,
                    event_message(*evt).target@,
                    n,
                ) ==> !(old(self).factories()[n].spec_active(*evt)
                    && old(self).factories()[n].spec_always_creates()),
    {
        let msg = match evt {
            BotEvent::Message(m) => m,
        };
        match self.handle_builtin(evt) {
            Some(a) => {
                let outcome = Ok(a);
                let reply = reply_for(msg, &outcome);
                return Turn { route: Route::Builtin, outcome, reply, tried: Ghost(Seq::empty()) };
            },
            None => {},
        }
        match self.session_mgr.handle_in_session(
            bid,
            msg.target_type.as_str(),
            msg.target.as_str(),
            evt,
        ) {
            Some(outcome) => {
                let ghost mid = self.session_mgr.view();
                let finished = match &outcome {
                    Ok(a) => a.finish,
                    Err(_) => true,
                };
                if finished {
                    self.session_mgr.remove_session(
                        bid,
                        msg.target_type.as_str(),
                        msg.target.as_str(),
                    );
                    assert(self.session_mgr.view() =~= old(self).session_mgr.view().remove(
                        event_key(bid@, *evt),
                    ));
                }
                let reply = reply_for(msg, &outcome);
                proof {
                    let k = event_key(bid@, *evt);
                    let p = mid[k].plugin;
                    assert(old(self).session_mgr.view()[k].plugin.spec_handles(*evt, p, outcome));
                    assert(!ends(outcome) ==> self.session_mgr.view()[k].plugin == p);
                    assert(old(self).session_mgr.view()[k].plugin.spec_handles(*evt, p, outcome) && (
                    !ends(outcome) ==> self.session_mgr.view()[k].plugin == p));
                }
                return Turn { route: Route::Session, outcome, reply, tried: Ghost(Seq::empty()) };
            },
            None => {},
        }
        let names = self.plugin_mgr.names();
        let list = self.bindings.get_plugin_list(
            bid,
            msg.target_type.as_str(),
            msg.target.as_str(),
            &names,
        );
        let ghost avail = strs(names@);
        let ghost bview = self.bindings.view();
        proof {
            assert(avail =~= self.plugin_mgr.name_order());
            assert(old(self).plugin_names() == avail);
            crate::bot::binding::law_plugin_list_no_duplicates(
                bview,
                bid@,
                msg.target_type@,
                msg.target@,
                avail,
            );
        }
        let mut i: usize = 0;
        let ghost mut rec: Seq<Option<bool>> = Seq::empty();
        while i < list.len()
            invariant
                0 <= i <= list@.len(),
                rec.len() == i,
                forall|j: int| 0 <= j < i ==> tried_as(
                    #[trigger] rec[j],
                    self.plugin_mgr.view(),
                    list@[j]@,
                    *evt,
                ),
                forall|j: int| 0 <= j < i ==> #[trigger] rec[j] != Some(true),
                self.session_mgr.view() == old(self).session_mgr.view(),
                self.plugin_mgr == old(self).plugin_mgr,
                self.bindings == old(self).bindings,
                bview == self.bindings.view(),
                strs(list@) == crate::bot::binding::plugin_list(bview, bid@, msg.target_type@, msg.target@, avail),
                forall|x: Seq<char>| avail.contains(x) ==> self.plugin_mgr.view().contains_key(x),
                forall|x: Seq<char>| (exists|q: int| 0 <= q < names@.len() && (#[trigger] names@[q])@ == x) <==> self.plugin_mgr.view().contains_key(x),
                avail == strs(names@),
                avail == old(self).plugin_mgr.name_order(),
                *msg == event_message(*evt),
                !is_ping(*evt),
                !old(self).session_mgr.view().contains_key(event_key(bid@, *evt)),
                forall|j: int| 0 <= j < i ==> !(#[trigger] self.plugin_mgr.view().contains_key(list@[j]@)
                    && self.plugin_mgr.view()[list@[j]@].spec_active(*evt)
                    && self.plugin_mgr.view()[list@[j]@].spec_always_creates()),
            decreases list@.len() - i,
        {
            let name = &list[i];
            if self.plugin_mgr.is_active(name.as_str(), evt) {
                match self.plugin_mgr.get(name.as_str()) {
                    Some(mut plugin) => {
                        let ghost p0 = plugin;
                        let outcome = plugin.handle(evt);
                        let ghost p1 = plugin;
                        let keep = match &outcome {
                            Ok(a) => !a.finish,
                            Err(_) => false,
                        };
                        if keep {
                            self.session_mgr.create_session(
                                bid,
                                msg.target_type.as_str(),
                                msg.target.as_str(),
                                plugin,
                            );
                        }
                        let reply = reply_for(msg, &outcome);
                        proof {
                            let pl = crate::bot::binding::plugin_list(bview, bid@, msg.target_type@, msg.target@, avail);
                            assert(pl[i as int] == name@);
                            assert(old(self).candidates(bid@, *evt) == pl);
                            assert forall|j: int| 0 <= j < i implies !old(self).sure_taker(
                                #[trigger] old(self).candidates(bid@, *evt)[j],
                                *evt,
                            ) by {
                                assert(pl[j] == list@[j]@);
                            }
                            assert(pl.contains(name@));
                            crate::bot::binding::law_plugin_list_members(bview, bid@, msg.target_type@, msg.target@, avail, name@);
                            let (bi, pj) = choose|bi: int, pj: int|
                                0 <= bi < bview.len() && 0 <= pj < bview[bi].plugins.len() && crate::bot::binding::binding_matches(
                                    #[trigger] bview[bi], bid@, msg.target_type@, msg.target@,
                                ) && crate::glob::spec_glob_match(#[trigger] bview[bi].plugins[pj], name@);
                            assert(bound(bview, bid@, msg.target_type@, msg.target@, name@));
                        }
                        return Turn {
                            route: Route::Plugin(name.clone()),
                            outcome,
                            reply,
                            tried: Ghost(rec.push(Some(true))),
                        };
                    },
                    None => {
                        proof {
                            rec = rec.push(Some(false));
                        }
                    },
                }
            } else {
                proof {
                    rec = rec.push(None);
                }
            }
            i = i + 1;
        }
        proof {
            let pl = crate::bot::binding::plugin_list(bview, bid@, msg.target_type@, msg.target@, avail);
            assert forall|n: Seq<char>|
                #[trigger] self.plugin_mgr.view().contains_key(n) && bound(
                    bview,
                    bid@,
                    msg.target_type@,
                    msg.target@,
                    n,
                ) implies !(self.plugin_mgr.view()[n].spec_active(*evt)
                    && self.plugin_mgr.view()[n].spec_always_creates()) by {
                let q = choose|q: int| 0 <= q < names@.len() && (#[trigger] names@[q])@ == n;
                assert(avail[q] == n);
                assert(avail.contains(n));
                crate::bot::binding::law_plugin_list_members(bview, bid@, msg.target_type@, msg.target@, avail, n);
                assert(pl.contains(n));
                let k = choose|k: int| 0 <= k < pl.len() && pl[k] == n;
                assert(strs(list@)[k] == list@[k]@);
            }
        }
        let outcome = Ok(Action { finish: true, reply: None });
        let reply = reply_for(msg, &outcome);
        Turn { route: Route::Unhandled, outcome, reply, tried: Ghost(rec) }
    }
}

} // verus!
