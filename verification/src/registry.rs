//! Registries of adapters and bots by name.
use vstd::prelude::*;

use crate::name_map::NameMap;

verus! {

/// Adapters by name; a later registration under a name replaces the earlier one.
pub struct AdapterRegistry<A> {
    adapters: NameMap<A>,
}

impl<A> AdapterRegistry<A> {
    /// The adapters by name.
    pub closed spec fn view(&self) -> Map<Seq<char>, A> {
        self.adapters@
    }

    /// No adapters.
    pub fn new() -> (r: Self)
        ensures
            r.view() == Map::<Seq<char>, A>::empty(),
    {
        AdapterRegistry { adapters: NameMap::new() }
    }

    /// Registers `adapter` under `name`.
    pub fn register(&mut self, name: &str, adapter: A)
        ensures
            final(self).view() == old(self).view().insert(name@, adapter),
    {
        self.adapters.insert(name.to_owned(), adapter);
    }

    /// Every registered name with its adapter.
    pub fn iter(&self) -> (r: Vec<(&String, &A)>)
        ensures
            r@.len() == self.view().dom().len(),
            forall|i: int| 0 <= i < r@.len() ==> self.view().contains_key((#[trigger] r@[i]).0@) && self.view()[r@[i].0@] == *r@[i].1,
            forall|i: int, j: int| 0 <= i < r@.len() && 0 <= j < r@.len() && i != j ==> r@[i].0@ != r@[j].0@,
            forall|k: Seq<char>| #[trigger] self.view().contains_key(k) ==> exists|i: int| 0 <= i < r@.len() && r@[i].0@ == k,
    {
        let n = self.adapters.len();
        let keys = self.adapters.keys();
        let mut r: Vec<(&String, &A)> = Vec::new();
        let mut i: usize = 0;
        while i < n
            invariant
                0 <= i <= n == self.adapters.entries().len() == keys@.len(),
                r@.len() == i,
                forall|q: int| 0 <= q < keys@.len() ==> #[trigger] keys@[q] == self.adapters.entries()[q].0,
                forall|q: int, j: int| 0 <= q < keys@.len() && 0 <= j < keys@.len() && q != j ==> keys@[q]@ != keys@[j]@,
                forall|q: int| 0 <= q < i ==> (#[trigger] r@[q]).0@ == keys@[q]@ && self.adapters@.contains_key(r@[q].0@) && self.adapters@[r@[q].0@] == *r@[q].1,
            decreases n - i,
        {
            let e = self.adapters.entry_at(i);
            r.push(e);
            i = i + 1;
        }
        proof {
            assert forall|k: Seq<char>| #[trigger] self.view().contains_key(k) implies exists|q: int| 0 <= q < r@.len() && r@[q].0@ == k by {
                let q = choose|q: int| 0 <= q < keys@.len() && (#[trigger] keys@[q])@ == k;
                assert(r@[q].0@ == k);
            }
        }
        r
    }

    /// The adapter registered under `name`.
    pub fn get(&self, name: &str) -> (r: Option<&A>)
        ensures
            r matches Some(a) ==> self.view().contains_key(name@) && *a == self.view()[name@],
            r is None <==> !self.view().contains_key(name@),
    {
        self.adapters.get_str(name)
    }
}

/// Why a bot could not be registered.
#[derive(Debug, PartialEq, Eq)]
pub enum RegistryError {
    /// A bot is already registered under this id.
    DuplicateId(String),
}

/// Bots by id; an id can be registered once.
pub struct BotRegistry<B> {
    bots: NameMap<B>,
}

impl<B> BotRegistry<B> {
    /// The bots by id.
    pub closed spec fn view(&self) -> Map<Seq<char>, B> {
        self.bots@
    }

    /// No bots.
    pub fn new() -> (r: Self)
        ensures
            r.view() == Map::<Seq<char>, B>::empty(),
    {
        BotRegistry { bots: NameMap::new() }
    }

    /// Registers `bot` under `bid`; refused, with nothing changed, when the id
    /// is taken.
    pub fn register(&mut self, bid: &str, bot: B) -> (r: Result<(), RegistryError>)
        ensures
            old(self).view().contains_key(bid@) ==> (r matches Err(RegistryError::DuplicateId(id)) && id@ == bid@) && final(self).view() == old(self).view(),
            !old(self).view().contains_key(bid@) ==> r is Ok && final(self).view() == old(self).view().insert(bid@, bot),
    {
        if self.bots.get_str(bid).is_some() {
            return Err(RegistryError::DuplicateId(bid.to_owned()));
        }
        self.bots.insert(bid.to_owned(), bot);
        Ok(())
    }

    /// Every registered id with its bot.
    pub fn iter(&self) -> (r: Vec<(&String, &B)>)
        ensures
            r@.len() == self.view().dom().len(),
            forall|i: int| 0 <= i < r@.len() ==> self.view().contains_key((#[trigger] r@[i]).0@) && self.view()[r@[i].0@] == *r@[i].1,
            forall|k: Seq<char>| #[trigger] self.view().contains_key(k) ==> exists|i: int| 0 <= i < r@.len() && r@[i].0@ == k,
    {
        let n = self.bots.len();
        let keys = self.bots.keys();
        let mut r: Vec<(&String, &B)> = Vec::new();
        let mut i: usize = 0;
        while i < n
            invariant
                0 <= i <= n == self.bots.entries().len() == keys@.len(),
                r@.len() == i,
                forall|q: int| 0 <= q < keys@.len() ==> #[trigger] keys@[q] == self.bots.entries()[q].0,
                forall|q: int| 0 <= q < i ==> (#[trigger] r@[q]).0@ == keys@[q]@ && self.bots@.contains_key(r@[q].0@) && self.bots@[r@[q].0@] == *r@[q].1,
            decreases n - i,
        {
            let e = self.bots.entry_at(i);
            r.push(e);
            i = i + 1;
        }
        proof {
            assert forall|k: Seq<char>| #[trigger] self.view().contains_key(k) implies exists|q: int| 0 <= q < r@.len() && r@[q].0@ == k by {
                let q = choose|q: int| 0 <= q < keys@.len() && (#[trigger] keys@[q])@ == k;
                assert(r@[q].0@ == k);
            }
        }
        r
    }

    /// The bot registered under `bid`.
    pub fn get(&self, bid: &str) -> (r: Option<&B>)
        ensures
            r matches Some(b) ==> self.view().contains_key(bid@) && *b == self.view()[bid@],
            r is None <==> !self.view().contains_key(bid@),
    {
        self.bots.get_str(bid)
    }
}

} // verus!
