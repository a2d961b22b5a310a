//! Maps stored as lists of entries whose keys are distinct.
use vstd::prelude::*;

verus! {

/// A key that can be compared by its plain value.
pub trait MapKey: Sized {
    type KeyView;

    /// The key as a plain value.
    spec fn kview(&self) -> Self::KeyView;

    /// Whether two keys have the same plain value.
    fn same_key(&self, other: &Self) -> (b: bool)
        ensures
            b == (self.kview() == other.kview()),
    ;
}

impl MapKey for String {
    type KeyView = Seq<char>;

    open spec fn kview(&self) -> Seq<char> {
        self@
    }

    fn same_key(&self, other: &Self) -> (b: bool) {
        *self == *other
    }
}

impl MapKey for (String, String, String) {
    type KeyView = (Seq<char>, Seq<char>, Seq<char>);

    open spec fn kview(&self) -> (Seq<char>, Seq<char>, Seq<char>) {
        (self.0@, self.1@, self.2@)
    }

    fn same_key(&self, other: &Self) -> (b: bool) {
        self.0 == other.0 && self.1 == other.1 && self.2 == other.2
    }
}

/// No two entries share a name.
pub open spec fn names_distinct<K: MapKey, V>(s: Seq<(K, V)>) -> bool {
    forall|i: int, j: int|
        0 <= i < s.len() && 0 <= j < s.len() && i != j ==> #[trigger] s[i].0.kview() != #[trigger] s[j].0.kview()
}

/// Some entry carries the name `k`.
pub open spec fn has_name<K: MapKey, V>(s: Seq<(K, V)>, k: K::KeyView) -> bool {
    exists|i: int| 0 <= i < s.len() && #[trigger] s[i].0.kview() == k
}

/// The position of an entry named `k` (meaningful when `has_name(s, k)`).
pub open spec fn name_index<K: MapKey, V>(s: Seq<(K, V)>, k: K::KeyView) -> int {
    choose|i: int| 0 <= i < s.len() && #[trigger] s[i].0.kview() == k
}

/// The map that a list of entries denotes.
pub open spec fn map_of<K: MapKey, V>(s: Seq<(K, V)>) -> Map<K::KeyView, V> {
    Map::new(|k: K::KeyView| has_name(s, k), |k: K::KeyView| s[name_index(s, k)].1)
}

/// With distinct names, the entry at position `i` is what `map_of` gives for its name.
pub proof fn lemma_map_of_at<K: MapKey, V>(s: Seq<(K, V)>, i: int)
    requires
        names_distinct(s),
        0 <= i < s.len(),
    ensures
        map_of(s).dom().contains(s[i].0.kview()),
        map_of(s)[s[i].0.kview()] == s[i].1,
{
    let k = s[i].0.kview();
    assert(has_name(s, k));
    let j = name_index(s, k);
    assert(s[j].0.kview() == k);
    assert(i == j);
}

/// Replacing the value at position `i` updates the map at that name only.
pub proof fn lemma_map_of_update<K: MapKey, V>(s: Seq<(K, V)>, i: int, e: (K, V))
    requires
        names_distinct(s),
        0 <= i < s.len(),
        e.0.kview() == s[i].0.kview(),
    ensures
        names_distinct(s.update(i, e)),
        map_of(s.update(i, e)) == map_of(s).insert(e.0.kview(), e.1),
{
    let t = s.update(i, e);
    assert(names_distinct(t)) by {
        assert forall|a: int, b: int|
            0 <= a < t.len() && 0 <= b < t.len() && a != b implies #[trigger] t[a].0.kview()
            != #[trigger] t[b].0.kview() by {
            assert(t[a].0.kview() == s[a].0.kview());
            assert(t[b].0.kview() == s[b].0.kview());
        }
    }
    assert forall|k: K::KeyView| #[trigger] has_name(t, k) == has_name(s, k) by {
        if has_name(s, k) {
            let j = name_index(s, k);
            assert(t[j].0.kview() == k);
        }
        if has_name(t, k) {
            let j = name_index(t, k);
            assert(s[j].0.kview() == k);
        }
    }
    assert forall|k: K::KeyView| has_name(t, k) implies #[trigger] map_of(t)[k] == map_of(
        s,
    ).insert(e.0.kview(), e.1)[k] by {
        let j = name_index(t, k);
        lemma_map_of_at(t, j);
        if k != e.0.kview() {
            lemma_map_of_at(s, j);
        }
    }
    assert(map_of(t) =~= map_of(s).insert(e.0.kview(), e.1));
}

/// Appending an entry with a new name extends the map by that name.
pub proof fn lemma_map_of_push<K: MapKey, V>(s: Seq<(K, V)>, e: (K, V))
    requires
        names_distinct(s),
        !has_name(s, e.0.kview()),
    ensures
        names_distinct(s.push(e)),
        map_of(s.push(e)) == map_of(s).insert(e.0.kview(), e.1),
{
    let t = s.push(e);
    assert(names_distinct(t)) by {
        assert forall|a: int, b: int|
            0 <= a < t.len() && 0 <= b < t.len() && a != b implies #[trigger] t[a].0.kview()
            != #[trigger] t[b].0.kview() by {
            if a < s.len() && b < s.len() {
                assert(t[a] == s[a] && t[b] == s[b]);
            } else if a < s.len() {
                assert(t[a] == s[a]);
            } else {
                assert(t[b] == s[b]);
            }
        }
    }
    assert forall|k: K::KeyView| #[trigger] has_name(t, k) == (has_name(s, k) || k == e.0.kview()) by {
        if has_name(s, k) {
            let j = name_index(s, k);
            assert(t[j] == s[j]);
        }
        if k == e.0.kview() {
            assert(t[s.len() as int] == e);
        }
        if has_name(t, k) && k != e.0.kview() {
            let j = name_index(t, k);
            if j == s.len() {
                assert(t[j] == e);
            } else {
                assert(t[j] == s[j]);
            }
        }
    }
    assert forall|k: K::KeyView| has_name(t, k) implies #[trigger] map_of(t)[k] == map_of(
        s,
    ).insert(e.0.kview(), e.1)[k] by {
        let j = name_index(t, k);
        lemma_map_of_at(t, j);
        if k != e.0.kview() {
            assert(j < s.len()) by {
                if j == s.len() {
                    assert(t[j] == e);
                }
            }
            assert(t[j] == s[j]);
            lemma_map_of_at(s, j);
        }
    }
    assert(map_of(t) =~= map_of(s).insert(e.0.kview(), e.1));
}

/// Removing the entry at position `i` removes its name from the map.
pub proof fn lemma_map_of_remove<K: MapKey, V>(s: Seq<(K, V)>, i: int)
    requires
        names_distinct(s),
        0 <= i < s.len(),
    ensures
        names_distinct(s.remove(i)),
        map_of(s.remove(i)) == map_of(s).remove(s[i].0.kview()),
{
    let t = s.remove(i);
    let k0 = s[i].0.kview();
    assert forall|a: int| 0 <= a < t.len() implies #[trigger] t[a] == (if a < i {
        s[a]
    } else {
        s[a + 1]
    }) by {}
    assert(names_distinct(t)) by {
        assert forall|a: int, b: int|
            0 <= a < t.len() && 0 <= b < t.len() && a != b implies #[trigger] t[a].0.kview()
            != #[trigger] t[b].0.kview() by {
            let a1 = if a < i {
                a
            } else {
                a + 1
            };
            let b1 = if b < i {
                b
            } else {
                b + 1
            };
            assert(t[a] == s[a1]);
            assert(t[b] == s[b1]);
        }
    }
    assert forall|k: K::KeyView| #[trigger] has_name(t, k) == (has_name(s, k) && k != k0) by {
        if has_name(t, k) {
            let j = name_index(t, k);
            let j1 = if j < i {
                j
            } else {
                j + 1
            };
            assert(t[j] == s[j1]);
            assert(s[j1].0.kview() == k);
            assert(j1 != i);
        }
        if has_name(s, k) && k != k0 {
            let j = name_index(s, k);
            assert(j != i);
            let j1 = if j < i {
                j
            } else {
                j - 1
            };
            assert(t[j1] == s[j]);
        }
    }
    assert forall|k: K::KeyView| has_name(t, k) implies #[trigger] map_of(t)[k] == map_of(
        s,
    ).remove(k0)[k] by {
        let j = name_index(t, k);
        lemma_map_of_at(t, j);
        let j1 = if j < i {
            j
        } else {
            j + 1
        };
        assert(t[j] == s[j1]);
        lemma_map_of_at(s, j1);
    }
    assert(map_of(t) =~= map_of(s).remove(k0));
}

/// The map of distinct entries is finite and has one key per entry.
pub proof fn lemma_map_of_len<K: MapKey, V>(s: Seq<(K, V)>)
    requires
        names_distinct(s),
    ensures
        map_of(s).dom().finite(),
        map_of(s).dom().len() == s.len(),
    decreases s.len(),
{
    if s.len() == 0 {
        assert(map_of(s).dom() =~= Set::<K::KeyView>::empty());
    } else {
        let p = s.drop_last();
        let e = s.last();
        assert(names_distinct(p)) by {
            assert forall|a: int, b: int|
                0 <= a < p.len() && 0 <= b < p.len() && a != b implies #[trigger] p[a].0.kview()
                != #[trigger] p[b].0.kview() by {
                assert(p[a] == s[a] && p[b] == s[b]);
            }
        }
        assert(!has_name(p, e.0.kview())) by {
            if has_name(p, e.0.kview()) {
                let j = name_index(p, e.0.kview());
                assert(p[j] == s[j]);
                assert(s[s.len() - 1] == e);
            }
        }
        lemma_map_of_len(p);
        lemma_map_of_push(p, e);
        assert(p.push(e) =~= s);
    }
}

/// A map from keys to values.
pub struct KeyMap<K: MapKey, V> {
    entries: Vec<(K, V)>,
}

/// A map from names to values.
pub type NameMap<V> = KeyMap<String, V>;

impl<K: MapKey, V> KeyMap<K, V> {
    /// The entries, in the order they are kept.
    pub closed spec fn entries(&self) -> Seq<(K, V)> {
        self.entries@
    }

    #[verifier::type_invariant]
    closed spec fn names_are_distinct(&self) -> bool {
        names_distinct(self.entries@)
    }

    /// The map that the entries denote.
    pub open spec fn as_map(&self) -> Map<K::KeyView, V> {
        map_of(self.entries())
    }

    /// An empty map.
    pub fn new() -> (m: Self)
        ensures
            m@ == Map::<K::KeyView, V>::empty(),
            m.entries().len() == 0,
    {
        let m = KeyMap { entries: Vec::new() };
        assert(m@ =~= Map::<K::KeyView, V>::empty());
        m
    }

    /// Number of entries, which is the number of keys.
    pub fn len(&self) -> (n: usize)
        ensures
            n == self.entries().len(),
            n == self@.dom().len(),
            self@.dom().finite(),
    {
        proof {
            use_type_invariant(self);
            lemma_map_of_len(self.entries@);
        }
        self.entries.len()
    }

    /// Whether the map holds no name.
    pub fn is_empty(&self) -> (b: bool)
        ensures
            b == (self@.dom() =~= Set::<K::KeyView>::empty()),
            b == (self.entries().len() == 0),
    {
        proof {
            use_type_invariant(self);
            if self.entries@.len() > 0 {
                lemma_map_of_at(self.entries@, 0);
            }
        }
        self.entries.len() == 0
    }

    /// The position of the entry named `key`, if there is one.
    pub fn find(&self, key: &K) -> (r: Option<usize>)
        ensures
            r matches Some(i) ==> i < self.entries().len() && self.entries()[i as int].0.kview() == key.kview(),
            r is None <==> !self@.dom().contains(key.kview()),
    {
        proof {
            use_type_invariant(self);
        }
        let mut i: usize = 0;
        while i < self.entries.len()
            invariant
                0 <= i <= self.entries@.len(),
                forall|j: int| 0 <= j < i ==> #[trigger] self.entries@[j].0.kview() != key.kview(),
            decreases self.entries@.len() - i,
        {
            if self.entries[i].0.same_key(key) {
                return Some(i);
            }
            i = i + 1;
        }
        None
    }

    /// Whether `key` is in the map.
    pub fn contains_key(&self, key: &K) -> (b: bool)
        ensures
            b == self@.dom().contains(key.kview()),
    {
        self.find(key).is_some()
    }

    /// The value stored under `key`.
    pub fn get(&self, key: &K) -> (r: Option<&V>)
        ensures
            r matches Some(v) ==> self@.dom().contains(key.kview()) && *v == self@[key.kview()],
            r is None <==> !self@.dom().contains(key.kview()),
    {
        match self.find(key) {
            Some(i) => {
                proof {
                    use_type_invariant(self);
                    lemma_map_of_at(self.entries@, i as int);
                }
                Some(&self.entries[i].1)
            },
            None => None,
        }
    }

    /// The entry at position `i`.
    pub fn entry_at(&self, i: usize) -> (r: (&K, &V))
        requires
            i < self.entries().len(),
        ensures
            *r.0 == self.entries()[i as int].0,
            *r.1 == self.entries()[i as int].1,
            self@.dom().contains(r.0.kview()),
            self@[r.0.kview()] == *r.1,
    {
        proof {
            use_type_invariant(self);
            lemma_map_of_at(self.entries@, i as int);
        }
        let e = &self.entries[i];
        (&e.0, &e.1)
    }

    /// Stores `value` under `key`, handing back what was stored there before.
    pub fn insert(&mut self, key: K, value: V) -> (old_value: Option<V>)
        ensures
            final(self)@ == old(self)@.insert(key.kview(), value),
            old_value matches Some(v) ==> old(self)@.dom().contains(key.kview()) && v == old(self)@[key.kview()],
            old_value is None <==> !old(self)@.dom().contains(key.kview()),
            old(self)@.dom().contains(key.kview()) ==> final(self).entries().len() == old(
                self,
            ).entries().len(),
            !old(self)@.dom().contains(key.kview()) ==> final(self).entries() == old(self).entries().push(
                (key, value),
            ),
    {
        proof {
            use_type_invariant(&*self);
        }
        match self.find(&key) {
            Some(i) => {
                let ghost s = self.entries@;
                proof {
                    lemma_map_of_at(s, i as int);
                    lemma_map_of_update(s, i as int, (key, value));
                }
                let mut entries: Vec<(K, V)> = Vec::new();
                std::mem::swap(&mut entries, &mut self.entries);
                let mut e = (key, value);
                entries.set_and_swap(i, &mut e);
                self.entries = entries;
                Some(e.1)
            },
            None => {
                let ghost s = self.entries@;
                proof {
                    assert(!has_name(s, key.kview()));
                    lemma_map_of_push(s, (key, value));
                }
                let mut entries: Vec<(K, V)> = Vec::new();
                std::mem::swap(&mut entries, &mut self.entries);
                entries.push((key, value));
                self.entries = entries;
                None
            },
        }
    }

    /// Takes out the value stored under `key`.
    pub fn remove(&mut self, key: &K) -> (removed: Option<V>)
        ensures
            final(self)@ == old(self)@.remove(key.kview()),
            removed matches Some(v) ==> old(self)@.dom().contains(key.kview()) && v == old(self)@[key.kview()],
            removed is None <==> !old(self)@.dom().contains(key.kview()),
    {
        proof {
            use_type_invariant(&*self);
        }
        match self.find(key) {
            Some(i) => {
                let ghost s = self.entries@;
                proof {
                    lemma_map_of_at(s, i as int);
                    lemma_map_of_remove(s, i as int);
                }
                let mut entries: Vec<(K, V)> = Vec::new();
                std::mem::swap(&mut entries, &mut self.entries);
                let e = entries.remove(i);
                self.entries = entries;
                Some(e.1)
            },
            None => {
                proof {
                    assert(self@ =~= self@.remove(key.kview()));
                }
                None
            },
        }
    }
}

impl<V> KeyMap<String, V> {
    /// The value stored under the name `key`.
    pub fn get_str(&self, key: &str) -> (r: Option<&V>)
        ensures
            r matches Some(v) ==> self@.dom().contains(key@) && *v == self@[key@],
            r is None <==> !self@.dom().contains(key@),
    {
        let k = key.to_owned();
        self.get(&k)
    }

    /// Takes out the value stored under the name `key`.
    pub fn remove_str(&mut self, key: &str) -> (removed: Option<V>)
        ensures
            final(self)@ == old(self)@.remove(key@),
            removed matches Some(v) ==> old(self)@.dom().contains(key@) && v == old(self)@[key@],
            removed is None <==> !old(self)@.dom().contains(key@),
    {
        let k = key.to_owned();
        self.remove(&k)
    }

    /// The names, in the order the entries are kept.
    pub fn keys(&self) -> (ks: Vec<String>)
        ensures
            ks@.len() == self.entries().len(),
            forall|i: int| 0 <= i < ks@.len() ==> #[trigger] ks@[i] == self.entries()[i].0,
            forall|x: Seq<char>|
                (exists|i: int| 0 <= i < ks@.len() && (#[trigger] ks@[i])@ == x) <==> self@.dom().contains(x),
            forall|i: int, j: int|
                0 <= i < ks@.len() && 0 <= j < ks@.len() && i != j ==> ks@[i]@ != ks@[j]@,
    {
        proof {
            use_type_invariant(self);
        }
        let mut ks: Vec<String> = Vec::new();
        let mut i: usize = 0;
        while i < self.entries.len()
            invariant
                0 <= i <= self.entries@.len(),
                ks@.len() == i,
                forall|j: int| 0 <= j < i ==> #[trigger] ks@[j] == self.entries@[j].0,
            decreases self.entries@.len() - i,
        {
            ks.push(self.entries[i].0.clone());
            i = i + 1;
        }
        proof {
            assert forall|x: Seq<char>|
                (exists|i: int| 0 <= i < ks@.len() && (#[trigger] ks@[i])@ == x) <==> self@.dom().contains(x) by {
                if exists|i: int| 0 <= i < ks@.len() && (#[trigger] ks@[i])@ == x {
                    let i = choose|i: int| 0 <= i < ks@.len() && (#[trigger] ks@[i])@ == x;
                    assert(self.entries@[i].0.kview() == x);
                }
                if self@.dom().contains(x) {
                    let i = name_index(self.entries@, x);
                    assert(ks@[i]@ == x);
                }
            }
            assert forall|i: int, j: int|
                0 <= i < ks@.len() && 0 <= j < ks@.len() && i != j implies ks@[i]@ != ks@[j]@ by {
                assert(ks@[i]@ == self.entries@[i].0.kview());
                assert(ks@[j]@ == self.entries@[j].0.kview());
            }
        }
        ks
    }
}

impl<K: MapKey, V> View for KeyMap<K, V> {
    type V = Map<K::KeyView, V>;

    open spec fn view(&self) -> Map<K::KeyView, V> {
        self.as_map()
    }
}

} // verus!
