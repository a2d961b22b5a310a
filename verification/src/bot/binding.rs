//! Which plugins a message is routed to: bindings of glob patterns over bot id,
//! target type and target id to plugin name patterns.
use vstd::prelude::*;

use crate::config::BindingConfig;
use crate::glob::{glob_match, spec_glob_match};

verus! {

/// One enabled binding.
pub struct Binding {
    pub bis: String,
    pub target_type: String,
    pub target_id: String,
    pub plugins: Vec<String>,
}

/// A binding as plain values.
pub struct BindingView {
    pub bis: Seq<char>,
    pub target_type: Seq<char>,
    pub target_id: Seq<char>,
    pub plugins: Seq<Seq<char>>,
}

/// The strings of a vector, as character sequences.
pub open spec fn strs(v: Seq<String>) -> Seq<Seq<char>> {
    v.map_values(|s: String| s@)
}

impl Binding {
    pub open spec fn view(&self) -> BindingView {
        BindingView {
            bis: self.bis@,
            target_type: self.target_type@,
            target_id: self.target_id@,
            plugins: strs(self.plugins@),
        }
    }
}

/// The binding that an enabled configuration entry becomes.
pub open spec fn binding_of(c: BindingConfig) -> BindingView {
    BindingView {
        bis: c.botid@,
        target_type: c.target_type@,
        target_id: c.target_id@,
        plugins: strs(c.plugins@),
    }
}

/// The enabled entries of a configuration, in order, as bindings.
pub open spec fn enabled_bindings(cfg: Seq<BindingConfig>) -> Seq<BindingView>
    decreases cfg.len(),
{
    if cfg.len() == 0 {
        Seq::empty()
    } else if cfg.last().enabled {
        enabled_bindings(cfg.drop_last()).push(binding_of(cfg.last()))
    } else {
        enabled_bindings(cfg.drop_last())
    }
}

/// The bot id, target type and target id all match the binding's patterns.
pub open spec fn binding_matches(
    b: BindingView,
    bid: Seq<char>,
    ttype: Seq<char>,
    tid: Seq<char>,
) -> bool {
    spec_glob_match(b.bis, bid) && spec_glob_match(b.target_type, ttype) && spec_glob_match(
        b.target_id,
        tid,
    )
}

/// The available plugins that one name pattern matches, in their order.
pub open spec fn pattern_hits(pattern: Seq<char>, plugins: Seq<Seq<char>>) -> Seq<Seq<char>>
    decreases plugins.len(),
{
    if plugins.len() == 0 {
        Seq::empty()
    } else if spec_glob_match(pattern, plugins.last()) {
        pattern_hits(pattern, plugins.drop_last()).push(plugins.last())
    } else {
        pattern_hits(pattern, plugins.drop_last())
    }
}

/// The hits of each pattern in turn.
pub open spec fn patterns_hits(patterns: Seq<Seq<char>>, plugins: Seq<Seq<char>>) -> Seq<
    Seq<char>,
>
    decreases patterns.len(),
{
    if patterns.len() == 0 {
        Seq::empty()
    } else {
        patterns_hits(patterns.drop_last(), plugins) + pattern_hits(patterns.last(), plugins)
    }
}

/// The hits of every matching binding in turn, duplicates included.
pub open spec fn candidates(
    bs: Seq<BindingView>,
    bid: Seq<char>,
    ttype: Seq<char>,
    tid: Seq<char>,
    plugins: Seq<Seq<char>>,
) -> Seq<Seq<char>>
    decreases bs.len(),
{
    if bs.len() == 0 {
        Seq::empty()
    } else if binding_matches(bs.last(), bid, ttype, tid) {
        candidates(bs.drop_last(), bid, ttype, tid, plugins) + patterns_hits(
            bs.last().plugins,
            plugins,
        )
    } else {
        candidates(bs.drop_last(), bid, ttype, tid, plugins)
    }
}

/// Each element at its first occurrence only.
pub open spec fn dedup(s: Seq<Seq<char>>) -> Seq<Seq<char>>
    decreases s.len(),
{
    if s.len() == 0 {
        Seq::empty()
    } else if dedup(s.drop_last()).contains(s.last()) {
        dedup(s.drop_last())
    } else {
        dedup(s.drop_last()).push(s.last())
    }
}

/// The plugin list of a message: `dedup` of the candidates.
pub open spec fn plugin_list(
    bs: Seq<BindingView>,
    bid: Seq<char>,
    ttype: Seq<char>,
    tid: Seq<char>,
    plugins: Seq<Seq<char>>,
) -> Seq<Seq<char>> {
    dedup(candidates(bs, bid, ttype, tid, plugins))
}

/// No element occurs twice.
pub open spec fn no_dups(s: Seq<Seq<char>>) -> bool {
    forall|i: int, j: int| 0 <= i < s.len() && 0 <= j < s.len() && i != j ==> s[i] != s[j]
}

/// Some name pattern of some binding whose bot, target type and target
/// patterns all match `(bid, ttype, tid)` matches `x`.
pub open spec fn bound(
    bs: Seq<BindingView>,
    bid: Seq<char>,
    ttype: Seq<char>,
    tid: Seq<char>,
    x: Seq<char>,
) -> bool {
    exists|i: int, j: int|
        0 <= i < bs.len() && 0 <= j < bs[i].plugins.len() && binding_matches(
            #[trigger] bs[i],
            bid,
            ttype,
            tid,
        ) && spec_glob_match(#[trigger] bs[i].plugins[j], x)
}

/// `x` is an available plugin that the bindings bind to `(bid, ttype, tid)`.
pub open spec fn selected(
    bs: Seq<BindingView>,
    bid: Seq<char>,
    ttype: Seq<char>,
    tid: Seq<char>,
    plugins: Seq<Seq<char>>,
    x: Seq<char>,
) -> bool {
    plugins.contains(x) && bound(bs, bid, ttype, tid, x)
}

proof fn lemma_dedup(s: Seq<Seq<char>>)
    ensures
        no_dups(dedup(s)),
        forall|x: Seq<char>| dedup(s).contains(x) <==> s.contains(x),
    decreases s.len(),
{
    if s.len() > 0 {
        let p = s.drop_last();
        lemma_dedup(p);
        assert forall|x: Seq<char>| dedup(s).contains(x) <==> s.contains(x) by {
            if s.contains(x) && x != s.last() {
                let k = choose|k: int| 0 <= k < s.len() && s[k] == x;
                assert(p[k] == x);
            }
            if p.contains(x) {
                let k = choose|k: int| 0 <= k < p.len() && p[k] == x;
                assert(s[k] == x);
            }
            if !dedup(p).contains(s.last()) {
                assert(dedup(s).last() == s.last());
                if dedup(s).contains(x) && x != s.last() {
                    let k = choose|k: int| 0 <= k < dedup(s).len() && dedup(s)[k] == x;
                    assert(dedup(p)[k] == x);
                }
                if dedup(p).contains(x) {
                    let k = choose|k: int| 0 <= k < dedup(p).len() && dedup(p)[k] == x;
                    assert(dedup(s)[k] == x);
                }
            }
            assert(s[s.len() - 1] == s.last());
        }
    }
}

proof fn lemma_pattern_hits(pattern: Seq<char>, plugins: Seq<Seq<char>>, x: Seq<char>)
    ensures
        pattern_hits(pattern, plugins).contains(x) <==> plugins.contains(x) && spec_glob_match(
            pattern,
            x,
        ),
    decreases plugins.len(),
{
    if plugins.len() > 0 {
        let p = plugins.drop_last();
        lemma_pattern_hits(pattern, p, x);
        let h = pattern_hits(pattern, plugins);
        let hp = pattern_hits(pattern, p);
        if plugins.contains(x) && x != plugins.last() {
            let k = choose|k: int| 0 <= k < plugins.len() && plugins[k] == x;
            assert(p[k] == x);
        }
        if p.contains(x) {
            let k = choose|k: int| 0 <= k < p.len() && p[k] == x;
            assert(plugins[k] == x);
        }
        if x == plugins.last() {
            assert(plugins[plugins.len() - 1] == x);
        }
        if spec_glob_match(pattern, plugins.last()) {
            assert(h.last() == plugins.last());
            if h.contains(x) && x != plugins.last() {
                let k = choose|k: int| 0 <= k < h.len() && h[k] == x;
                assert(hp[k] == x);
            }
            if hp.contains(x) {
                let k = choose|k: int| 0 <= k < hp.len() && hp[k] == x;
                assert(h[k] == x);
            }
        }
    }
}

proof fn lemma_seq_add_contains(a: Seq<Seq<char>>, b: Seq<Seq<char>>, x: Seq<char>)
    ensures
        (a + b).contains(x) <==> a.contains(x) || b.contains(x),
{
    if a.contains(x) {
        let k = choose|k: int| 0 <= k < a.len() && a[k] == x;
        assert((a + b)[k] == x);
    }
    if b.contains(x) {
        let k = choose|k: int| 0 <= k < b.len() && b[k] == x;
        assert((a + b)[a.len() + k] == x);
    }
    if (a + b).contains(x) {
        let k = choose|k: int| 0 <= k < (a + b).len() && (a + b)[k] == x;
        if k < a.len() {
            assert(a[k] == x);
        } else {
            assert(b[k - a.len()] == x);
        }
    }
}

proof fn lemma_patterns_hits(patterns: Seq<Seq<char>>, plugins: Seq<Seq<char>>, x: Seq<char>)
    ensures
        patterns_hits(patterns, plugins).contains(x) <==> plugins.contains(x) && exists|j: int|
            0 <= j < patterns.len() && spec_glob_match(#[trigger] patterns[j], x),
    decreases patterns.len(),
{
    if patterns.len() > 0 {
        let p = patterns.drop_last();
        lemma_patterns_hits(p, plugins, x);
        lemma_pattern_hits(patterns.last(), plugins, x);
        lemma_seq_add_contains(patterns_hits(p, plugins), pattern_hits(patterns.last(), plugins), x);
        if exists|j: int| 0 <= j < patterns.len() && spec_glob_match(#[trigger] patterns[j], x) {
            let j = choose|j: int| 0 <= j < patterns.len() && spec_glob_match(#[trigger] patterns[j], x);
            if j < p.len() {
                assert(p[j] == patterns[j]);
            } else {
                assert(patterns.last() == patterns[j]);
            }
        }
        if exists|j: int| 0 <= j < p.len() && spec_glob_match(#[trigger] p[j], x) {
            let j = choose|j: int| 0 <= j < p.len() && spec_glob_match(#[trigger] p[j], x);
            assert(patterns[j] == p[j]);
        }
        if spec_glob_match(patterns.last(), x) {
            assert(patterns[patterns.len() - 1] == patterns.last());
        }
    }
}

proof fn lemma_candidates(
    bs: Seq<BindingView>,
    bid: Seq<char>,
    ttype: Seq<char>,
    tid: Seq<char>,
    plugins: Seq<Seq<char>>,
    x: Seq<char>,
)
    ensures
        candidates(bs, bid, ttype, tid, plugins).contains(x) <==> selected(
            bs,
            bid,
            ttype,
            tid,
            plugins,
            x,
        ),
    decreases bs.len(),
{
    if bs.len() > 0 {
        let p = bs.drop_last();
        let b = bs.last();
        lemma_candidates(p, bid, ttype, tid, plugins, x);
        lemma_patterns_hits(b.plugins, plugins, x);
        if binding_matches(b, bid, ttype, tid) {
            lemma_seq_add_contains(
                candidates(p, bid, ttype, tid, plugins),
                patterns_hits(b.plugins, plugins),
                x,
            );
        }
        if selected(bs, bid, ttype, tid, plugins, x) {
            let (i, j) = choose|i: int, j: int|
                0 <= i < bs.len() && 0 <= j < bs[i].plugins.len() && binding_matches(
                    #[trigger] bs[i],
                    bid,
                    ttype,
                    tid,
                ) && spec_glob_match(#[trigger] bs[i].plugins[j], x);
            if i < p.len() {
                assert(p[i] == bs[i]);
            } else {
                assert(bs[i] == b);
            }
        }
        if selected(p, bid, ttype, tid, plugins, x) {
            let (i, j) = choose|i: int, j: int|
                0 <= i < p.len() && 0 <= j < p[i].plugins.len() && binding_matches(
                    #[trigger] p[i],
                    bid,
                    ttype,
                    tid,
                ) && spec_glob_match(#[trigger] p[i].plugins[j], x);
            assert(bs[i] == p[i]);
        }
        if binding_matches(b, bid, ttype, tid) && patterns_hits(b.plugins, plugins).contains(x) {
            let j = choose|j: int| 0 <= j < b.plugins.len() && spec_glob_match(#[trigger] b.plugins[j], x);
            assert(bs[bs.len() - 1] == b);
            assert(bs[bs.len() - 1].plugins[j] == b.plugins[j]);
        }
    }
}

/// A plugin list names each plugin at most once.
pub proof fn law_plugin_list_no_duplicates(
    bs: Seq<BindingView>,
    bid: Seq<char>,
    ttype: Seq<char>,
    tid: Seq<char>,
    plugins: Seq<Seq<char>>,
)
    ensures
        no_dups(plugin_list(bs, bid, ttype, tid, plugins)),
{
    lemma_dedup(candidates(bs, bid, ttype, tid, plugins));
}

/// A plugin is in the list exactly when it is available and some name pattern
/// of some binding whose bot, target type and target patterns all match selects it.
pub proof fn law_plugin_list_members(
    bs: Seq<BindingView>,
    bid: Seq<char>,
    ttype: Seq<char>,
    tid: Seq<char>,
    plugins: Seq<Seq<char>>,
    x: Seq<char>,
)
    ensures
        plugin_list(bs, bid, ttype, tid, plugins).contains(x) <==> selected(
            bs,
            bid,
            ttype,
            tid,
            plugins,
            x,
        ),
{
    lemma_dedup(candidates(bs, bid, ttype, tid, plugins));
    lemma_candidates(bs, bid, ttype, tid, plugins, x);
}

proof fn lemma_candidates_concat(
    bs1: Seq<BindingView>,
    bs2: Seq<BindingView>,
    bid: Seq<char>,
    ttype: Seq<char>,
    tid: Seq<char>,
    plugins: Seq<Seq<char>>,
)
    ensures
        candidates(bs1 + bs2, bid, ttype, tid, plugins) == candidates(bs1, bid, ttype, tid, plugins)
            + candidates(bs2, bid, ttype, tid, plugins),
    decreases bs2.len(),
{
    if bs2.len() == 0 {
        assert(bs1 + bs2 =~= bs1);
        assert(candidates(bs1, bid, ttype, tid, plugins) + candidates(bs2, bid, ttype, tid, plugins)
            =~= candidates(bs1, bid, ttype, tid, plugins));
    } else {
        let p2 = bs2.drop_last();
        lemma_candidates_concat(bs1, p2, bid, ttype, tid, plugins);
        assert((bs1 + bs2).drop_last() =~= bs1 + p2);
        assert((bs1 + bs2).last() == bs2.last());
        let c1 = candidates(bs1, bid, ttype, tid, plugins);
        let c2 = candidates(p2, bid, ttype, tid, plugins);
        let h = patterns_hits(bs2.last().plugins, plugins);
        assert(c1 + c2 + h =~= c1 + (c2 + h));
    }
}

proof fn lemma_patterns_hits_concat(p1: Seq<Seq<char>>, p2: Seq<Seq<char>>, plugins: Seq<Seq<char>>)
    ensures
        patterns_hits(p1 + p2, plugins) == patterns_hits(p1, plugins) + patterns_hits(p2, plugins),
    decreases p2.len(),
{
    if p2.len() == 0 {
        assert(p1 + p2 =~= p1);
        assert(patterns_hits(p1, plugins) + patterns_hits(p2, plugins) =~= patterns_hits(p1, plugins));
    } else {
        let q = p2.drop_last();
        lemma_patterns_hits_concat(p1, q, plugins);
        assert((p1 + p2).drop_last() =~= p1 + q);
        assert((p1 + p2).last() == p2.last());
        let a = patterns_hits(p1, plugins);
        let b = patterns_hits(q, plugins);
        let c = pattern_hits(p2.last(), plugins);
        assert(a + b + c =~= a + (b + c));
    }
}

proof fn lemma_dedup_of_distinct(s: Seq<Seq<char>>)
    requires
        no_dups(s),
    ensures
        dedup(s) == s,
    decreases s.len(),
{
    if s.len() > 0 {
        let p = s.drop_last();
        assert(no_dups(p)) by {
            assert forall|i: int, j: int| 0 <= i < p.len() && 0 <= j < p.len() && i != j implies p[i]
                != p[j] by {
                assert(s[i] == p[i] && s[j] == p[j]);
            }
        }
        lemma_dedup_of_distinct(p);
        if p.contains(s.last()) {
            let k = choose|k: int| 0 <= k < p.len() && p[k] == s.last();
            assert(s[k] == s[s.len() - 1]);
        }
        assert(p.push(s.last()) =~= s);
    }
}

proof fn lemma_dedup_left(a: Seq<Seq<char>>, b: Seq<Seq<char>>)
    ensures
        dedup(a + b) == dedup(dedup(a) + b),
    decreases b.len(),
{
    if b.len() == 0 {
        assert(a + b =~= a);
        assert(dedup(a) + b =~= dedup(a));
        lemma_dedup(a);
        lemma_dedup_of_distinct(dedup(a));
    } else {
        let q = b.drop_last();
        lemma_dedup_left(a, q);
        assert((a + b).drop_last() =~= a + q);
        assert((a + b).last() == b.last());
        assert((dedup(a) + b).drop_last() =~= dedup(a) + q);
        assert((dedup(a) + b).last() == b.last());
    }
}

proof fn lemma_dedup_right(a: Seq<Seq<char>>, b: Seq<Seq<char>>)
    ensures
        dedup(a + b) == dedup(a + dedup(b)),
    decreases b.len(),
{
    if b.len() == 0 {
        assert(dedup(b) =~= b);
    } else {
        let q = b.drop_last();
        let z = b.last();
        lemma_dedup_right(a, q);
        lemma_dedup(q);
        lemma_dedup(a + q);
        assert((a + b).drop_last() =~= a + q);
        assert((a + b).last() == z);
        if dedup(q).contains(z) {
            assert(q.contains(z));
            let k = choose|k: int| 0 <= k < q.len() && q[k] == z;
            assert((a + q)[a.len() + k] == z);
            assert((a + q).contains(z));
        } else {
            assert(a + dedup(b) =~= (a + dedup(q)).push(z));
            assert((a + dedup(q)).push(z).drop_last() =~= a + dedup(q));
        }
    }
}

/// `s` with every `x` left out.
pub open spec fn without(s: Seq<Seq<char>>, x: Seq<char>) -> Seq<Seq<char>> {
    s.filter(|y: Seq<char>| y != x)
}

proof fn lemma_filter_push(s: Seq<Seq<char>>, z: Seq<char>, x: Seq<char>)
    ensures
        without(s.push(z), x) == if z != x {
            without(s, x).push(z)
        } else {
            without(s, x)
        },
{
    reveal_with_fuel(Seq::<_>::filter, 1);
    assert(s.push(z).drop_last() =~= s);
}

proof fn lemma_filter_contains_ne(s: Seq<Seq<char>>, x: Seq<char>, z: Seq<char>)
    ensures
        without(s, x).contains(z) <==> s.contains(z) && z != x,
    decreases s.len(),
{
    reveal_with_fuel(Seq::<_>::filter, 1);
    if s.len() > 0 {
        let p = s.drop_last();
        lemma_filter_contains_ne(p, x, z);
        let f = without(p, x);
        if s.contains(z) && z != x && z != s.last() {
            let k = choose|k: int| 0 <= k < s.len() && s[k] == z;
            assert(p[k] == z);
        }
        if p.contains(z) {
            let k = choose|k: int| 0 <= k < p.len() && p[k] == z;
            assert(s[k] == z);
        }
        if s.last() != x {
            if f.push(s.last()).contains(z) && z != s.last() {
                let k = choose|k: int| 0 <= k < f.len() + 1 && f.push(s.last())[k] == z;
                assert(f[k] == z);
            }
            if f.contains(z) {
                let k = choose|k: int| 0 <= k < f.len() && f[k] == z;
                assert(f.push(s.last())[k] == z);
            }
            assert(f.push(s.last())[f.len() as int] == s.last());
        }
        assert(s[s.len() - 1] == s.last());
    }
}

/// Each plugin keeps its first place: the list of a sequence starting with
/// `x` is `x`, then the list of the rest with `x` left out.
pub proof fn law_dedup_keeps_first(x: Seq<char>, s: Seq<Seq<char>>)
    ensures
        dedup(Seq::<Seq<char>>::empty()) == Seq::<Seq<char>>::empty(),
        dedup(seq![x] + s) == seq![x] + without(dedup(s), x),
    decreases s.len(),
{
    if s.len() == 0 {
        reveal_with_fuel(Seq::<_>::filter, 1);
        assert(seq![x] + s =~= seq![x]);
        assert(seq![x].drop_last() =~= Seq::<Seq<char>>::empty());
        let e = Seq::<Seq<char>>::empty();
        assert(dedup(e) =~= e);
        assert(!dedup(e).contains(x));
        assert(seq![x].last() == x);
        assert(e.push(x) =~= seq![x]);
        assert(dedup(seq![x]) =~= seq![x]);
        assert(without(dedup(s), x) =~= Seq::<Seq<char>>::empty());
        assert(seq![x] + without(dedup(s), x) =~= seq![x]);
    } else {
        let q = s.drop_last();
        let z = s.last();
        law_dedup_keeps_first(x, q);
        let t = seq![x] + s;
        assert(t.drop_last() =~= seq![x] + q);
        assert(t.last() == z);
        let f = without(dedup(q), x);
        assert(dedup(seq![x] + q) == seq![x] + f);
        lemma_filter_contains_ne(dedup(q), x, z);
        lemma_dedup(q);
        lemma_filter_push(dedup(q), z, x);
        if z == x {
            assert((seq![x] + f)[0] == x);
            assert((seq![x] + f).contains(z));
            assert(dedup(t) == seq![x] + f);
            assert(without(dedup(s), x) == f);
        } else {
            if (seq![x] + f).contains(z) {
                let k = choose|k: int| 0 <= k < f.len() + 1 && (seq![x] + f)[k] == z;
                assert(k > 0);
                assert(f[k - 1] == z);
                assert(f.contains(z));
            }
            if f.contains(z) {
                let k = choose|k: int| 0 <= k < f.len() && f[k] == z;
                assert((seq![x] + f)[k + 1] == z);
            }
            if dedup(q).contains(z) {
                assert(dedup(t) == seq![x] + f);
                assert(dedup(s) == dedup(q));
            } else {
                assert(dedup(t) == (seq![x] + f).push(z));
                assert(dedup(s) == dedup(q).push(z));
                assert((seq![x] + f).push(z) =~= seq![x] + f.push(z));
            }
        }
    }
}

/// The plugins that one name pattern matches come in the order of the
/// available plugins: exactly those that the pattern matches.
pub proof fn law_pattern_hits_in_order(pattern: Seq<char>, plugins: Seq<Seq<char>>)
    ensures
        pattern_hits(pattern, plugins) == plugins.filter(|x: Seq<char>| spec_glob_match(pattern, x)),
    decreases plugins.len(),
{
    reveal_with_fuel(Seq::<_>::filter, 1);
    if plugins.len() > 0 {
        law_pattern_hits_in_order(pattern, plugins.drop_last());
    }
}

/// The patterns of a binding are taken in their order: a single pattern gives
/// its hits, and the patterns of `p1 + p2` give those of `p1`, then those of `p2`.
pub proof fn law_patterns_in_order(p1: Seq<Seq<char>>, p2: Seq<Seq<char>>, plugins: Seq<Seq<char>>)
    ensures
        patterns_hits(Seq::<Seq<char>>::empty(), plugins) == Seq::<Seq<char>>::empty(),
        patterns_hits(p1 + p2, plugins) == patterns_hits(p1, plugins) + patterns_hits(p2, plugins),
        p1.len() == 1 ==> patterns_hits(p1, plugins) == pattern_hits(p1[0], plugins),
{
    lemma_patterns_hits_concat(p1, p2, plugins);
    if p1.len() == 1 {
        assert(p1.drop_last() =~= Seq::<Seq<char>>::empty());
        assert(p1.last() == p1[0]);
        assert(patterns_hits(p1.drop_last(), plugins) =~= Seq::<Seq<char>>::empty());
        assert(Seq::<Seq<char>>::empty() + pattern_hits(p1[0], plugins) =~= pattern_hits(
            p1[0],
            plugins,
        ));
    }
}

/// Bindings are taken in configuration order: the plugin list of `bs1 + bs2`
/// is that of `bs1`, then the plugins of `bs2`'s list not already in it. A
/// single binding gives its patterns' hits, without repeats, when it matches
/// the message, and nothing otherwise.
pub proof fn law_plugin_list_in_order(
    bs1: Seq<BindingView>,
    bs2: Seq<BindingView>,
    bid: Seq<char>,
    ttype: Seq<char>,
    tid: Seq<char>,
    plugins: Seq<Seq<char>>,
)
    ensures
        plugin_list(Seq::<BindingView>::empty(), bid, ttype, tid, plugins) == Seq::<Seq<char>>::empty(),
        plugin_list(bs1 + bs2, bid, ttype, tid, plugins) == dedup(
            plugin_list(bs1, bid, ttype, tid, plugins) + plugin_list(bs2, bid, ttype, tid, plugins),
        ),
        bs1.len() == 1 ==> plugin_list(bs1, bid, ttype, tid, plugins) == if binding_matches(
            bs1[0],
            bid,
            ttype,
            tid,
        ) {
            dedup(patterns_hits(bs1[0].plugins, plugins))
        } else {
            Seq::<Seq<char>>::empty()
        },
{
    let c1 = candidates(bs1, bid, ttype, tid, plugins);
    let c2 = candidates(bs2, bid, ttype, tid, plugins);
    lemma_candidates_concat(bs1, bs2, bid, ttype, tid, plugins);
    lemma_dedup_left(c1, c2);
    lemma_dedup_right(dedup(c1), c2);
    if bs1.len() == 1 {
        assert(bs1.drop_last() =~= Seq::<BindingView>::empty());
        assert(bs1.last() == bs1[0]);
        let h = patterns_hits(bs1[0].plugins, plugins);
        let e = Seq::<Seq<char>>::empty();
        assert(candidates(bs1.drop_last(), bid, ttype, tid, plugins) =~= e);
        assert(e + h =~= h);
        if binding_matches(bs1[0], bid, ttype, tid) {
            assert(candidates(bs1, bid, ttype, tid, plugins) == h);
        } else {
            assert(candidates(bs1, bid, ttype, tid, plugins) == e);
            assert(dedup(e) =~= e);
        }
    }
}

/// The enabled entries keep the configuration's order: those of `c1 + c2`
/// are those of `c1`, then those of `c2`; a single entry gives its binding
/// when enabled and nothing otherwise.
pub proof fn law_enabled_bindings_in_order(c1: Seq<BindingConfig>, c2: Seq<BindingConfig>)
    ensures
        enabled_bindings(c1 + c2) == enabled_bindings(c1) + enabled_bindings(c2),
        c1.len() == 1 ==> enabled_bindings(c1) == if c1[0].enabled {
            seq![binding_of(c1[0])]
        } else {
            Seq::<BindingView>::empty()
        },
    decreases c2.len(),
{
    if c2.len() == 0 {
        assert(c1 + c2 =~= c1);
        assert(enabled_bindings(c1) + enabled_bindings(c2) =~= enabled_bindings(c1));
    } else {
        let q = c2.drop_last();
        law_enabled_bindings_in_order(c1, q);
        assert((c1 + c2).drop_last() =~= c1 + q);
        assert((c1 + c2).last() == c2.last());
        let a = enabled_bindings(c1);
        let b = enabled_bindings(q);
        if c2.last().enabled {
            assert((a + b).push(binding_of(c2.last())) =~= a + b.push(binding_of(c2.last())));
        }
    }
    if c1.len() == 1 {
        assert(c1.drop_last() =~= Seq::<BindingConfig>::empty());
        assert(c1.last() == c1[0]);
        assert(enabled_bindings(c1.drop_last()) =~= Seq::<BindingView>::empty());
        assert(Seq::<BindingView>::empty().push(binding_of(c1[0])) =~= seq![binding_of(c1[0])]);
    }
}

/// The enabled bindings of a configuration.
pub struct Bindings {
    bindings: Vec<Binding>,
}

impl Bindings {
    /// The bindings, in order, as plain values.
    pub closed spec fn view(&self) -> Seq<BindingView> {
        self.bindings@.map_values(|b: Binding| b.view())
    }

    /// Keeps the enabled entries of `cfg`, in order.
    pub fn new(cfg: Vec<BindingConfig>) -> (r: Self)
        ensures
            r.view() == enabled_bindings(cfg@),
    {
        let ghost orig = cfg@;
        let mut rest = cfg;
        let mut bindings: Vec<Binding> = Vec::new();
        let ghost mut done: Seq<BindingConfig> = Seq::empty();
        while rest.len() > 0
            invariant
                done + rest@ == orig,
                bindings@.map_values(|b: Binding| b.view()) == enabled_bindings(done),
            decreases rest@.len(),
        {
            let c = rest.remove(0);
            let ghost prev = done;
            proof {
                done = done.push(c);
                assert(done.drop_last() =~= prev);
            }
            let ghost bc = binding_of(c);
            if c.enabled {
                bindings.push(
                    Binding {
                        bis: c.botid,
                        target_type: c.target_type,
                        target_id: c.target_id,
                        plugins: c.plugins,
                    },
                );
            }
            assert(bindings@.map_values(|b: Binding| b.view()) =~= enabled_bindings(done)) by {
                if c.enabled {
                    assert(bindings@.last().view() == bc);
                }
            }
        }
        assert(done =~= orig);
        Bindings { bindings }
    }

    /// The available plugins that the bindings matching `(bid, ttype, tid)`
    /// select, each once, in the order of bindings, then patterns, then `plugins`.
    pub fn get_plugin_list(&self, bid: &str, ttype: &str, tid: &str, plugins: &Vec<String>) -> (r:
        Vec<String>)
        ensures
            strs(r@) == plugin_list(self.view(), bid@, ttype@, tid@, strs(plugins@)),
    {
        let ghost ps = strs(plugins@);
        let ghost bs = self.view();
        let mut result: Vec<String> = Vec::new();
        let ghost mut cand: Seq<Seq<char>> = Seq::empty();
        let mut i: usize = 0;
        while i < self.bindings.len()
            invariant
                0 <= i <= self.bindings@.len(),
                bs == self.view(),
                ps == strs(plugins@),
                cand == candidates(bs.subrange(0, i as int), bid@, ttype@, tid@, ps),
                strs(result@) == dedup(cand),
            decreases self.bindings@.len() - i,
        {
            let binding = &self.bindings[i];
            proof {
                assert(bs.subrange(0, i + 1).drop_last() =~= bs.subrange(0, i as int));
                assert(bs.subrange(0, i + 1).last() == binding.view());
            }
            if glob_match(binding.bis.as_str(), bid) && glob_match(
                binding.target_type.as_str(),
                ttype,
            ) && glob_match(binding.target_id.as_str(), tid) {
                let ghost base = cand;
                let ghost pats = strs(binding.plugins@);
                let mut j: usize = 0;
                while j < binding.plugins.len()
                    invariant
                        0 <= j <= binding.plugins@.len(),
                        pats == strs(binding.plugins@),
                        ps == strs(plugins@),
                        cand == base + patterns_hits(pats.subrange(0, j as int), ps),
                        strs(result@) == dedup(cand),
                    decreases binding.plugins@.len() - j,
                {
                    let pattern = &binding.plugins[j];
                    let ghost mid = cand;
                    let mut k: usize = 0;
                    while k < plugins.len()
                        invariant
                            0 <= k <= plugins@.len(),
                            ps == strs(plugins@),
                            cand == mid + pattern_hits(pattern@, ps.subrange(0, k as int)),
                            strs(result@) == dedup(cand),
                        decreases plugins@.len() - k,
                    {
                        let plugin = &plugins[k];
                        proof {
                            assert(ps.subrange(0, k + 1).drop_last() =~= ps.subrange(0, k as int));
                            assert(ps.subrange(0, k + 1).last() == plugin@);
                        }
                        if glob_match(pattern.as_str(), plugin.as_str()) {
                            let mut seen = false;
                            let mut m: usize = 0;
                            while m < result.len()
                                invariant
                                    0 <= m <= result@.len(),
                                    seen == exists|q: int| 0 <= q < m && (#[trigger] result@[q])@ == plugin@,
                                decreases result@.len() - m,
                            {
                                if result[m] == *plugin {
                                    seen = true;
                                }
                                m = m + 1;
                            }
                            proof {
                                let d = strs(result@);
                                if seen {
                                    let q = choose|q: int| 0 <= q < result@.len() && (#[trigger] result@[q])@ == plugin@;
                                    assert(d[q] == plugin@);
                                } else {
                                    assert forall|q: int| 0 <= q < d.len() implies d[q] != plugin@ by {
                                        assert(d[q] == result@[q]@);
                                    }
                                }
                                assert(d.contains(plugin@) == seen);
                                let c2 = cand.push(plugin@);
                                assert(c2.drop_last() =~= cand);
                                cand = c2;
                            }
                            if !seen {
                                result.push(plugin.clone());
                                assert(strs(result@) =~= dedup(cand));
                            }
                            assert(cand =~= mid + pattern_hits(pattern@, ps.subrange(0, k + 1)));
                        } else {
                            assert(cand =~= mid + pattern_hits(pattern@, ps.subrange(0, k + 1)));
                        }
                        k = k + 1;
                    }
                    proof {
                        assert(ps.subrange(0, plugins@.len() as int) =~= ps);
                        assert(pats.subrange(0, j + 1).drop_last() =~= pats.subrange(0, j as int));
                        assert(pats.subrange(0, j + 1).last() == pattern@);
                        assert(cand =~= base + patterns_hits(pats.subrange(0, j + 1), ps));
                    }
                    j = j + 1;
                }
                proof {
                    assert(pats.subrange(0, binding.plugins@.len() as int) =~= pats);
                    assert(cand =~= candidates(bs.subrange(0, i + 1), bid@, ttype@, tid@, ps));
                }
            }
            i = i + 1;
        }
        assert(bs.subrange(0, self.bindings@.len() as int) =~= bs);
        result
    }
}

} // verus!
