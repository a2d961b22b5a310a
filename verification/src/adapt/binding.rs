//! Channel bindings grouped by adapter instance.
use vstd::prelude::*;

use crate::bot::binding::strs;
use crate::name_map::NameMap;
use crate::text::{chars_of, push_str, slice_chars, string_of};

verus! {

/// A copy of a list of strings.
pub fn clone_strings(v: &Vec<String>) -> (r: Vec<String>)
    ensures
        strs(r@) == strs(v@),
        r@ == v@,
{
    let mut r: Vec<String> = Vec::new();
    let mut i: usize = 0;
    while i < v.len()
        invariant
            0 <= i <= v@.len(),
            r@ == v@.subrange(0, i as int),
        decreases v@.len() - i,
    {
        r.push(v[i].clone());
        i = i + 1;
    }
    assert(r@ =~= v@);
    r
}

/// The first position of `:` in `c`, if any.
pub open spec fn first_colon(c: Seq<char>) -> Option<int> {
    if exists|i: int| 0 <= i < c.len() && c[i] == ':' {
        Some(choose|i: int| 0 <= i < c.len() && c[i] == ':' && forall|j: int| 0 <= j < i ==> c[j] != ':')
    } else {
        None
    }
}

/// The type wildcard of a channel id `type:id`: `type:*`.
pub open spec fn type_wildcard(c: Seq<char>, p: int) -> Seq<char> {
    c.subrange(0, p) + seq![':', '*']
}

/// What `resolve` gives for bindings `b`: the plugins bound to the exact
/// channel if that list is non-empty, else those bound to `type:*` (when the
/// id has a `:`) if non-empty, else those bound to `*`, else none; and none for
/// an unknown adapter.
pub open spec fn resolve_spec(
    b: Map<Seq<char>, Map<Seq<char>, Seq<Seq<char>>>>,
    adapter: Seq<char>,
    channel: Seq<char>,
) -> Seq<Seq<char>> {
    if !b.contains_key(adapter) {
        Seq::empty()
    } else {
        let m = b[adapter];
        if m.contains_key(channel) && m[channel].len() > 0 {
            m[channel]
        } else if first_colon(channel) is Some && m.contains_key(
            type_wildcard(channel, first_colon(channel)->0),
        ) && m[type_wildcard(channel, first_colon(channel)->0)].len() > 0 {
            m[type_wildcard(channel, first_colon(channel)->0)]
        } else if m.contains_key(seq!['*']) {
            m[seq!['*']]
        } else {
            Seq::empty()
        }
    }
}

/// Bindings `b` after binding `plugins` to `channel` of `adapter`: the
/// adapter's table, empty if it had none, with that channel's list replaced.
pub open spec fn bind_spec(
    b: Map<Seq<char>, Map<Seq<char>, Seq<Seq<char>>>>,
    adapter: Seq<char>,
    channel: Seq<char>,
    plugins: Seq<Seq<char>>,
) -> Map<Seq<char>, Map<Seq<char>, Seq<Seq<char>>>> {
    b.insert(
        adapter,
        if b.contains_key(adapter) {
            b[adapter]
        } else {
            Map::empty()
        }.insert(channel, plugins),
    )
}

/// Exact match comes first: a non-empty list just bound to a channel is what
/// that channel resolves to, whatever wildcards are bound beside it.
pub proof fn law_resolve_after_bind(
    b: Map<Seq<char>, Map<Seq<char>, Seq<Seq<char>>>>,
    adapter: Seq<char>,
    channel: Seq<char>,
    plugins: Seq<Seq<char>>,
)
    requires
        plugins.len() > 0,
    ensures
        resolve_spec(bind_spec(b, adapter, channel, plugins), adapter, channel) == plugins,
{
}

/// Binding at one adapter leaves what every other adapter resolves to unchanged.
pub proof fn law_bind_other_adapter(
    b: Map<Seq<char>, Map<Seq<char>, Seq<Seq<char>>>>,
    adapter: Seq<char>,
    channel: Seq<char>,
    plugins: Seq<Seq<char>>,
    other: Seq<char>,
    query: Seq<char>,
)
    requires
        other != adapter,
    ensures
        resolve_spec(bind_spec(b, adapter, channel, plugins), other, query) == resolve_spec(
            b,
            other,
            query,
        ),
{
}

/// A channel with no exact list and no `type:*` list falls back to the list
/// bound to `*`.
pub proof fn law_resolve_falls_back_to_star(
    b: Map<Seq<char>, Map<Seq<char>, Seq<Seq<char>>>>,
    adapter: Seq<char>,
    channel: Seq<char>,
    plugins: Seq<Seq<char>>,
)
    requires
        !b.contains_key(adapter),
        channel != seq!['*'],
    ensures
        resolve_spec(bind_spec(b, adapter, seq!['*'], plugins), adapter, channel) == plugins,
{
    let m = Map::<Seq<char>, Seq<Seq<char>>>::empty().insert(seq!['*'], plugins);
    assert(bind_spec(b, adapter, seq!['*'], plugins)[adapter] == m);
    if first_colon(channel) is Some {
        let w = type_wildcard(channel, first_colon(channel)->0);
        assert(w.len() >= 2);
        assert(seq!['*'].len() == 1);
    }
}

/// Plugin lists by adapter instance and channel id. A channel id is
/// `type:id`; lookups fall back from the exact id to `type:*` to `*`.
pub struct ChannelBinding {
    bindings: NameMap<NameMap<Vec<String>>>,
}

impl ChannelBinding {
    /// The bindings: adapter instance, then channel id, then plugin names.
    pub closed spec fn view(&self) -> Map<Seq<char>, Map<Seq<char>, Seq<Seq<char>>>> {
        self.bindings@.map_values(
            |m: NameMap<Vec<String>>| m@.map_values(|v: Vec<String>| strs(v@)),
        )
    }

    /// No bindings at all.
    pub fn new() -> (r: Self)
        ensures
            r.view() == Map::<Seq<char>, Map<Seq<char>, Seq<Seq<char>>>>::empty(),
    {
        let r = ChannelBinding { bindings: NameMap::new() };
        assert(r.view() =~= Map::<Seq<char>, Map<Seq<char>, Seq<Seq<char>>>>::empty());
        r
    }

    /// Binds `plugins` to `channel_id` of `instance_id`, replacing an earlier list.
    pub fn add(&mut self, instance_id: &str, channel_id: String, plugins: Vec<String>)
        ensures
            final(self).view() == bind_spec(old(self).view(), instance_id@, channel_id@, strs(plugins@)),
    {
        let ghost old_view = self.view();
        let mut inner = match self.bindings.remove_str(instance_id) {
            Some(m) => m,
            None => NameMap::new(),
        };
        let ghost before = inner@.map_values(|v: Vec<String>| strs(v@));
        assert(before == if old_view.contains_key(instance_id@) {
            old_view[instance_id@]
        } else {
            Map::empty()
        }) by {
            if !old_view.contains_key(instance_id@) {
                assert(before =~= Map::empty());
            }
        }
        let ghost cid = channel_id@;
        let ghost pv = strs(plugins@);
        inner.insert(channel_id, plugins);
        assert(inner@.map_values(|v: Vec<String>| strs(v@)) =~= before.insert(cid, pv));
        self.bindings.insert(instance_id.to_owned(), inner);
        assert(self.view() =~= old_view.insert(instance_id@, before.insert(cid, pv)));
    }

    /// The plugins bound to `channel_id` of `source_adapter`, with wildcard fallback.
    pub fn resolve(&self, source_adapter: &str, channel_id: &str) -> (r: Vec<String>)
        ensures
            strs(r@) == resolve_spec(self.view(), source_adapter@, channel_id@),
    {
        let ghost b = self.view();
        match self.bindings.get_str(source_adapter) {
            None => {
                let r: Vec<String> = Vec::new();
                assert(strs(r@) =~= Seq::<Seq<char>>::empty());
                r
            },
            Some(instance_bindings) => {
                let ghost m = b[source_adapter@];
                assert(m == instance_bindings@.map_values(|v: Vec<String>| strs(v@)));
                match instance_bindings.get_str(channel_id) {
                    Some(plugins) => {
                        if plugins.len() > 0 {
                            return clone_strings(plugins);
                        }
                    },
                    None => {},
                }
                let c = chars_of(channel_id);
                let mut p: usize = 0;
                while p < c.len() && c[p] != ':'
                    invariant
                        0 <= p <= c@.len(),
                        c@ == channel_id@,
                        forall|j: int| 0 <= j < p ==> c@[j] != ':',
                    decreases c@.len() - p,
                {
                    p = p + 1;
                }
                if p < c.len() {
                    let ghost fc = first_colon(channel_id@);
                    assert(fc == Some(p as int)) by {
                        assert(c@[p as int] == ':');
                        let q = choose|i: int|
                            0 <= i < c@.len() && c@[i] == ':' && forall|j: int|
                                0 <= j < i ==> c@[j] != ':';
                        assert(q == p);
                    }
                    let mut w = slice_chars(&c, 0, p);
                    push_str(&mut w, ":*");
                    proof {
                        reveal_strlit(":*");
                    }
                    let wild = string_of(&w);
                    assert(wild@ == type_wildcard(channel_id@, p as int));
                    match instance_bindings.get_str(wild.as_str()) {
                        Some(plugins) => {
                            if plugins.len() > 0 {
                                return clone_strings(plugins);
                            }
                        },
                        None => {},
                    }
                } else {
                    assert(first_colon(channel_id@) is None);
                }
                proof {
                    reveal_strlit("*");
                }
                assert("*"@ == seq!['*']);
                match instance_bindings.get_str("*") {
                    Some(plugins) => clone_strings(plugins),
                    None => {
                        let r: Vec<String> = Vec::new();
                        assert(strs(r@) =~= Seq::<Seq<char>>::empty());
                        r
                    },
                }
            },
        }
    }

    /// Whether no adapter instance has any binding.
    pub fn is_empty(&self) -> (b: bool)
        ensures
            b == (self.view().dom() =~= Set::<Seq<char>>::empty()),
    {
        self.bindings.is_empty()
    }
}

} // verus!
