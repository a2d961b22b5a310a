//! Registered plugins by name, and which of them an event is dispatched to.
use vstd::prelude::*;

use crate::name_map::NameMap;

verus! {

/// Plugins by name.
pub struct PluginManager<P> {
    plugins: NameMap<P>,
}

impl<P> PluginManager<P> {
    /// The plugins by name.
    pub closed spec fn view(&self) -> Map<Seq<char>, P> {
        self.plugins@
    }

    /// No plugins.
    pub fn new() -> (m: Self)
        ensures
            m.view() == Map::<Seq<char>, P>::empty(),
    {
        PluginManager { plugins: NameMap::new() }
    }

    /// Registers `plugin` under `name`, replacing an earlier one.
    pub fn register(&mut self, name: &str, plugin: P)
        ensures
            final(self).view() == old(self).view().insert(name@, plugin),
    {
        self.plugins.insert(name.to_owned(), plugin);
    }

    /// Takes out the plugin registered under `name`.
    pub fn unregister(&mut self, name: &str) -> (r: Option<P>)
        ensures
            final(self).view() == old(self).view().remove(name@),
            r matches Some(p) ==> old(self).view().contains_key(name@) && p == old(self).view()[name@],
            r is None <==> !old(self).view().contains_key(name@),
    {
        self.plugins.remove_str(name)
    }

    /// The plugin registered under `name`.
    pub fn get(&self, name: &str) -> (r: Option<&P>)
        ensures
            r matches Some(p) ==> self.view().contains_key(name@) && *p == self.view()[name@],
            r is None <==> !self.view().contains_key(name@),
    {
        self.plugins.get_str(name)
    }

    /// The plugins that an event bound to `names` goes to: the registered ones,
    /// in the order of `names`.
    pub fn dispatch_targets<'a>(&'a self, names: &'a Vec<String>) -> (r: Vec<(&'a String, &'a P)>)
        ensures
            r@.map_values(|e: (&String, &P)| e.0@) == names@.map_values(|s: String| s@).filter(
                |s: Seq<char>| self.view().contains_key(s),
            ),
            forall|i: int| 0 <= i < r@.len() ==> *(#[trigger] r@[i]).1 == self.view()[r@[i].0@],
    {
        let mut r: Vec<(&String, &P)> = Vec::new();
        let mut i: usize = 0;
        let ghost ns = names@.map_values(|s: String| s@);
        while i < names.len()
            invariant
                0 <= i <= names@.len(),
                ns == names@.map_values(|s: String| s@),
                r@.map_values(|e: (&String, &P)| e.0@) == ns.subrange(0, i as int).filter(
                    |s: Seq<char>| self.view().contains_key(s),
                ),
                forall|q: int| 0 <= q < r@.len() ==> *(#[trigger] r@[q]).1 == self.view()[r@[q].0@],
            decreases names@.len() - i,
        {
            proof {
                reveal_with_fuel(Seq::<_>::filter, 1);
                assert(ns.subrange(0, i + 1).drop_last() =~= ns.subrange(0, i as int));
            }
            match self.plugins.get_str(names[i].as_str()) {
                Some(p) => {
                    r.push((&names[i], p));
                },
                None => {},
            }
            assert(r@.map_values(|e: (&String, &P)| e.0@) =~= ns.subrange(0, i + 1).filter(
                |s: Seq<char>| self.view().contains_key(s),
            ));
            i = i + 1;
        }
        assert(ns.subrange(0, names@.len() as int) =~= ns);
        r
    }
}

/// The outcomes of the plugins an event went to, merged: the actions of every
/// plugin that succeeded, in order; failures contribute nothing.
pub open spec fn merged<T, E>(results: Seq<Result<Vec<T>, E>>) -> Seq<T>
    decreases results.len(),
{
    if results.len() == 0 {
        Seq::empty()
    } else {
        merged(results.drop_last()) + match results.last() {
            Ok(v) => v@,
            Err(_) => Seq::empty(),
        }
    }
}

/// Merges the outcomes of the plugins an event went to.
pub fn collect_actions<T, E>(results: Vec<Result<Vec<T>, E>>) -> (r: Vec<T>)
    ensures
        r@ == merged(results@),
{
    let ghost orig = results@;
    let mut rest = results;
    let mut done: Vec<T> = Vec::new();
    let ghost mut k: int = 0;
    while rest.len() > 0
        invariant
            0 <= k <= orig.len(),
            k + rest@.len() == orig.len(),
            rest@ == orig.subrange(k, orig.len() as int),
            done@ == merged(orig.subrange(0, k)),
        decreases rest@.len(),
    {
        let res = rest.remove(0);
        proof {
            assert(orig.subrange(0, k + 1).drop_last() =~= orig.subrange(0, k));
            assert(orig.subrange(0, k + 1).last() == res);
        }
        match res {
            Ok(mut v) => {
                let ghost prev = done@;
                let ghost vv = v@;
                done.append(&mut v);
                assert(done@ == prev + vv);
            },
            Err(_) => {
                assert(done@ =~= done@ + Seq::<T>::empty());
            },
        }
        proof {
            k = k + 1;
        }
        assert(rest@ =~= orig.subrange(k, orig.len() as int));
    }
    assert(orig.subrange(0, k) =~= orig);
    done
}

} // verus!
