//! Conversations in progress, one per bot, target type and target.
use vstd::prelude::*;

use crate::bot::events::BotEvent;
use crate::bot::plugin::{Action, Plugin};
use crate::name_map::KeyMap;

verus! {

/// A conversation: where it takes place and the plugin that leads it.
pub struct Session<P> {
    pub bid: String,
    pub target_type: String,
    pub target_id: String,
    pub plugin: P,
}

/// The key of a conversation: bot id, target type, target id.
pub type SessionKey = (Seq<char>, Seq<char>, Seq<char>);

/// The conversations in progress.
pub struct SessionMgr<P> {
    sessions: KeyMap<(String, String, String), Session<P>>,
}

impl<P> SessionMgr<P> {
    /// The conversations by key.
    pub closed spec fn view(&self) -> Map<SessionKey, Session<P>> {
        self.sessions@
    }

    /// No conversations.
    pub fn new() -> (m: Self)
        ensures
            m.view() == Map::<SessionKey, Session<P>>::empty(),
    {
        SessionMgr { sessions: KeyMap::new() }
    }

    /// Whether there is no conversation.
    pub fn is_empty(&self) -> (b: bool)
        ensures
            b == (self.view().dom() =~= Set::<SessionKey>::empty()),
    {
        self.sessions.is_empty()
    }

    /// Number of conversations.
    pub fn len(&self) -> (n: usize)
        ensures
            n == self.view().dom().len(),
    {
        self.sessions.len()
    }

    /// The conversation at `(bid, ttype, tid)`.
    pub fn get_session(&self, bid: &str, ttype: &str, tid: &str) -> (r: Option<&Session<P>>)
        ensures
            r matches Some(s) ==> self.view().contains_key((bid@, ttype@, tid@)) && *s == self.view()[(bid@, ttype@, tid@)],
            r is None <==> !self.view().contains_key((bid@, ttype@, tid@)),
    {
        let key = (bid.to_owned(), ttype.to_owned(), tid.to_owned());
        self.sessions.get(&key)
    }

    /// Starts (or restarts) the conversation at `(bid, ttype, tid)` with `plugin`.
    pub fn create_session(&mut self, bid: &str, ttype: &str, tid: &str, plugin: P)
        ensures
            final(self).view().dom() == old(self).view().dom().insert((bid@, ttype@, tid@)),
            forall|k: SessionKey| k != (bid@, ttype@, tid@) && #[trigger] old(self).view().contains_key(k) ==> final(self).view()[k] == old(self).view()[k],
            final(self).view()[(bid@, ttype@, tid@)].bid@ == bid@,
            final(self).view()[(bid@, ttype@, tid@)].target_type@ == ttype@,
            final(self).view()[(bid@, ttype@, tid@)].target_id@ == tid@,
            final(self).view()[(bid@, ttype@, tid@)].plugin == plugin,
    {
        let key = (bid.to_owned(), ttype.to_owned(), tid.to_owned());
        let session = Session {
            bid: bid.to_owned(),
            target_type: ttype.to_owned(),
            target_id: tid.to_owned(),
            plugin,
        };
        self.sessions.insert(key, session);
    }

    /// Ends the conversation at `(bid, ttype, tid)`, if there is one.
    pub fn remove_session(&mut self, bid: &str, ttype: &str, tid: &str)
        ensures
            final(self).view() == old(self).view().remove((bid@, ttype@, tid@)),
    {
        let key = (bid.to_owned(), ttype.to_owned(), tid.to_owned());
        self.sessions.remove(&key);
    }
}

impl<P: Plugin> SessionMgr<P> {
    /// Lets the plugin of the conversation at `(bid, ttype, tid)` handle `evt`;
    /// `None` when there is no such conversation. The conversation stays, its
    /// plugin in the state that handling left it in.
    pub fn handle_in_session(&mut self, bid: &str, ttype: &str, tid: &str, evt: &BotEvent) -> (r:
        Option<Result<Action, String>>)
        ensures
            r is None <==> !old(self).view().contains_key((bid@, ttype@, tid@)),
            r is None ==> final(self).view() == old(self).view(),
            final(self).view().dom() == old(self).view().dom(),
            forall|k: SessionKey| k != (bid@, ttype@, tid@) && #[trigger] old(self).view().contains_key(k) ==> final(self).view()[k] == old(self).view()[k],
            old(self).view().contains_key((bid@, ttype@, tid@)) ==> {
                let o = old(self).view()[(bid@, ttype@, tid@)];
                let n = final(self).view()[(bid@, ttype@, tid@)];
                &&& n.bid == o.bid && n.target_type == o.target_type && n.target_id == o.target_id
                &&& r matches Some(out) && o.plugin.spec_handles(*evt, n.plugin, out)
            },
    {
        let key = (bid.to_owned(), ttype.to_owned(), tid.to_owned());
        match self.sessions.remove(&key) {
            None => {
                proof {
                    assert(self.view() =~= old(self).view());
                }
                None
            },
            Some(mut session) => {
                let outcome = session.plugin.handle(evt);
                self.sessions.insert(key, session);
                assert(self.view().dom() =~= old(self).view().dom());
                Some(outcome)
            },
        }
    }
}

} // verus!
