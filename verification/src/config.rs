//! Configuration records and `${NAME:-default}` expansion of configuration strings.
use vstd::prelude::*;

use crate::text::{chars_of, push_all, push_str, slice_chars, string_of};

verus! {

/// `toml::Value`: a parsed configuration value, carried through untouched
/// where it is neither a string, an array nor a table.
#[verifier::external_type_specification]
#[verifier::external_body]
pub struct ExTomlValue(toml::Value);

/// The `[core]` section.
#[derive(Debug)]
pub struct CoreConfig {
    pub log_level: String,
}

/// The log filter used when the configuration names none: `"info"`.
pub fn default_log_level() -> (s: String)
    ensures
        s@ == "info"@,
{
    String::from_str("info")
}

impl Default for CoreConfig {
    fn default() -> (c: Self)
        ensures
            c.log_level@ == "info"@,
    {
        CoreConfig { log_level: default_log_level() }
    }
}

/// One `[[plugins]]` entry.
#[derive(Debug)]
pub struct PluginConfig {
    pub name: String,
    pub path: String,
    pub enabled: bool,
}

/// One channel of an adapter and the plugins bound to it.
#[derive(Debug)]
pub struct ChannelEntry {
    pub channel_id: String,
    pub plugins: Vec<String>,
}

/// One `[[bindings]]` entry: glob patterns for bot, target type and target,
/// and the plugin name patterns bound to what they match.
#[derive(Debug)]
pub struct BindingConfig {
    pub botid: String,
    pub target_type: String,
    pub target_id: String,
    pub enabled: bool,
    pub plugins: Vec<String>,
}

/// The plugin entries that are enabled, in order.
pub fn enabled_plugins(plugins: &Vec<PluginConfig>) -> (r: Vec<&PluginConfig>)
    ensures
        r@.map_values(|p: &PluginConfig| *p) == plugins@.filter(|p: PluginConfig| p.enabled),
{
    let mut r: Vec<&PluginConfig> = Vec::new();
    let mut i: usize = 0;
    while i < plugins.len()
        invariant
            0 <= i <= plugins@.len(),
            r@.map_values(|p: &PluginConfig| *p) == plugins@.subrange(0, i as int).filter(
                |p: PluginConfig| p.enabled,
            ),
        decreases plugins@.len() - i,
    {
        proof {
            reveal_with_fuel(Seq::<_>::filter, 1);
            assert(plugins@.subrange(0, i + 1).drop_last() =~= plugins@.subrange(0, i as int));
        }
        if plugins[i].enabled {
            r.push(&plugins[i]);
        }
        assert(r@.map_values(|p: &PluginConfig| *p) =~= plugins@.subrange(0, i + 1).filter(
            |p: PluginConfig| p.enabled,
        ));
        i = i + 1;
    }
    assert(plugins@.subrange(0, plugins@.len() as int) =~= plugins@);
    r
}

/// A snapshot of the process environment: name and value of each variable.
pub struct Env {
    pub vars: Vec<(String, String)>,
}

/// The value of the first variable named `name`.
pub open spec fn env_var(vars: Seq<(Seq<char>, Seq<char>)>, name: Seq<char>) -> Option<Seq<char>>
    decreases vars.len(),
{
    if vars.len() == 0 {
        None
    } else if vars[0].0 == name {
        Some(vars[0].1)
    } else {
        env_var(vars.drop_first(), name)
    }
}

impl Env {
    /// Names and values of the variables, in order.
    pub open spec fn pairs(&self) -> Seq<(Seq<char>, Seq<char>)> {
        self.vars@.map_values(|p: (String, String)| (p.0@, p.1@))
    }

    /// Looks up a variable; the first one with that name wins.
    pub fn var(&self, name: &str) -> (r: Option<String>)
        ensures
            r matches Some(v) ==> env_var(self.pairs(), name@) == Some(v@),
            r is None ==> env_var(self.pairs(), name@) is None,
    {
        let key = name.to_owned();
        let mut i: usize = 0;
        assert(self.pairs().subrange(0, self.vars@.len() as int) =~= self.pairs());
        while i < self.vars.len()
            invariant
                0 <= i <= self.vars@.len(),
                key@ == name@,
                env_var(self.pairs(), name@) == env_var(self.pairs().subrange(i as int, self.vars@.len() as int), name@),
            decreases self.vars@.len() - i,
        {
            let ghost rest = self.pairs().subrange(i as int, self.vars@.len() as int);
            assert(rest[0] == (self.vars@[i as int].0@, self.vars@[i as int].1@));
            if self.vars[i].0 == key {
                return Some(self.vars[i].1.clone());
            }
            assert(rest.drop_first() =~= self.pairs().subrange(i + 1, self.vars@.len() as int));
            i = i + 1;
        }
        None
    }
}

/// The first position at or after `j` where `:-` starts.
pub open spec fn default_sep(e: Seq<char>, j: int) -> Option<int>
    decreases e.len() - j,
{
    if j < 0 || j + 1 >= e.len() {
        None
    } else if e[j] == ':' && e[j + 1] == '-' {
        Some(j)
    } else {
        default_sep(e, j + 1)
    }
}

/// What `${expr}` expands to: `NAME:-default` gives the variable or else the
/// default; a plain `NAME` gives the variable or else nothing.
pub open spec fn resolve_var_spec(expr: Seq<char>, env: Seq<(Seq<char>, Seq<char>)>) -> Seq<char> {
    match default_sep(expr, 0) {
        Some(p) => match env_var(env, expr.subrange(0, p)) {
            Some(v) => v,
            None => expr.subrange(p + 2, expr.len() as int),
        },
        None => match env_var(env, expr) {
            Some(v) => v,
            None => Seq::empty(),
        },
    }
}

/// The first position at or after `j` holding `}`, or the length.
pub open spec fn close_index(s: Seq<char>, j: int) -> int
    decreases s.len() - j,
{
    if j >= s.len() {
        s.len() as int
    } else if s[j] == '}' {
        j
    } else {
        close_index(s, j + 1)
    }
}

proof fn lemma_close_index(s: Seq<char>, j: int)
    requires
        0 <= j,
    ensures
        j <= close_index(s, j) || j > s.len(),
        close_index(s, j) <= s.len(),
        close_index(s, j) < s.len() ==> s[close_index(s, j)] == '}',
        forall|k: int| j <= k < close_index(s, j) ==> s[k] != '}',
    decreases s.len() - j,
{
    if j < s.len() && s[j] != '}' {
        lemma_close_index(s, j + 1);
    }
}

/// The expansion of `s[i..]`: each `${expr}` (or `${expr` running to the end)
/// is replaced by what `expr` resolves to; everything else is kept.
pub open spec fn expand_from(s: Seq<char>, i: int, env: Seq<(Seq<char>, Seq<char>)>) -> Seq<char>
    decreases s.len() - i,
{
    if i < 0 || i >= s.len() {
        Seq::empty()
    } else if i + 1 < s.len() && s[i] == '$' && s[i + 1] == '{' {
        let k = close_index(s, i + 2);
        let next = if k < s.len() {
            k + 1
        } else {
            k
        };
        if i + 2 <= k <= s.len() && i < next <= s.len() {
            resolve_var_spec(s.subrange(i + 2, k), env) + expand_from(s, next, env)
        } else {
            Seq::empty()
        }
    } else {
        seq![s[i]] + expand_from(s, i + 1, env)
    }
}

/// The expansion of a whole string.
pub open spec fn expand_spec(s: Seq<char>, env: Seq<(Seq<char>, Seq<char>)>) -> Seq<char> {
    expand_from(s, 0, env)
}

/// `s` holds no `${`.
pub open spec fn no_placeholder(s: Seq<char>) -> bool {
    forall|i: int| 0 <= i < s.len() - 1 ==> !(#[trigger] s[i] == '$' && s[i + 1] == '{')
}

proof fn lemma_expand_plain(s: Seq<char>, i: int, env: Seq<(Seq<char>, Seq<char>)>)
    requires
        0 <= i <= s.len(),
        no_placeholder(s),
    ensures
        expand_from(s, i, env) == s.subrange(i, s.len() as int),
    decreases s.len() - i,
{
    if i < s.len() {
        lemma_expand_plain(s, i + 1, env);
        assert(seq![s[i]] + s.subrange(i + 1, s.len() as int) =~= s.subrange(i, s.len() as int));
    } else {
        assert(s.subrange(i, s.len() as int) =~= Seq::<char>::empty());
    }
}

/// A text with no `${` is left as it is, whatever the environment holds.
pub proof fn law_expand_without_placeholder(s: Seq<char>, env: Seq<(Seq<char>, Seq<char>)>)
    requires
        no_placeholder(s),
    ensures
        expand_spec(s, env) == s,
{
    lemma_expand_plain(s, 0, env);
    assert(s.subrange(0, s.len() as int) =~= s);
}

proof fn lemma_close_shift(s: Seq<char>, d: int, j: int)
    requires
        0 <= d <= j,
    ensures
        close_index(s, j) == close_index(s.subrange(d, s.len() as int), j - d) + d || j > s.len(),
    decreases s.len() - j,
{
    if j < s.len() && s[j] != '}' {
        lemma_close_shift(s, d, j + 1);
    }
}

proof fn lemma_expand_shift(s: Seq<char>, d: int, j: int, env: Seq<(Seq<char>, Seq<char>)>)
    requires
        0 <= d <= j <= s.len(),
    ensures
        expand_from(s, j, env) == expand_from(s.subrange(d, s.len() as int), j - d, env),
    decreases s.len() - j,
{
    let t = s.subrange(d, s.len() as int);
    if j < s.len() {
        if j + 1 < s.len() && s[j] == '$' && s[j + 1] == '{' {
            let k = close_index(s, j + 2);
            lemma_close_shift(s, d, j + 2);
            lemma_close_index(s, j + 2);
            let next = if k < s.len() {
                k + 1
            } else {
                k
            };
            assert(t.subrange(j - d + 2, k - d) =~= s.subrange(j + 2, k));
            lemma_expand_shift(s, d, next, env);
        } else {
            lemma_expand_shift(s, d, j + 1, env);
        }
    }
}

/// One `${expr}` (with no `}` inside) at the front of a text is replaced by
/// what `expr` resolves to, and the rest is expanded on its own.
pub proof fn law_expand_placeholder(
    e: Seq<char>,
    rest: Seq<char>,
    env: Seq<(Seq<char>, Seq<char>)>,
)
    requires
        forall|i: int| 0 <= i < e.len() ==> #[trigger] e[i] != '}',
    ensures
        expand_spec(seq!['$', '{'] + e + seq!['}'] + rest, env) == resolve_var_spec(e, env)
            + expand_spec(rest, env),
{
    let s = seq!['$', '{'] + e + seq!['}'] + rest;
    let c: int = e.len() as int + 2;
    assert(s[c] == '}');
    lemma_close_index(s, 2);
    let k = close_index(s, 2);
    if k < c {
        assert(s[k] == e[k - 2]);
    }
    assert(k == c);
    assert(s.subrange(2, k) =~= e);
    lemma_expand_shift(s, k + 1, k + 1, env);
    assert(s.subrange(k + 1, s.len() as int) =~= rest);
    assert(s[0] == '$' && s[1] == '{');
}

/// Resolves the inside of one `${...}`.
pub fn resolve_var(expr: &str, env: &Env) -> (r: String)
    ensures
        r@ == resolve_var_spec(expr@, env.pairs()),
{
    let e = chars_of(expr);
    let n = e.len();
    let mut j: usize = 0;
    while j < n && !(j + 1 < n && e[j] == ':' && e[j + 1] == '-')
        invariant
            0 <= j <= n,
            n == e@.len(),
            e@ == expr@,
            default_sep(e@, 0) == default_sep(e@, j as int),
        decreases n - j,
    {
        j = j + 1;
    }
    if j < n && j + 1 < n {
        let name = string_of(&slice_chars(&e, 0, j));
        match env.var(name.as_str()) {
            Some(v) => v,
            None => string_of(&slice_chars(&e, j + 2, n)),
        }
    } else {
        match env.var(expr) {
            Some(v) => v,
            None => String::new(),
        }
    }
}

/// Replaces every `${NAME}` or `${NAME:-default}` in `input` by the variable's
/// value from `env`, or the default, or nothing.
pub fn expand_env_vars(input: &str, env: &Env) -> (r: String)
    ensures
        r@ == expand_spec(input@, env.pairs()),
{
    let s = chars_of(input);
    let n = s.len();
    let mut out: Vec<char> = Vec::new();
    let mut i: usize = 0;
    while i < n
        invariant
            0 <= i <= n == s@.len(),
            s@ == input@,
            out@ + expand_from(s@, i as int, env.pairs()) == expand_spec(s@, env.pairs()),
        decreases n - i,
    {
        if i + 1 < n && s[i] == '$' && s[i + 1] == '{' {
            let mut k = i + 2;
            while k < n && s[k] != '}'
                invariant
                    i + 2 <= k <= n == s@.len(),
                    close_index(s@, i + 2) == close_index(s@, k as int),
                decreases n - k,
            {
                k = k + 1;
            }
            let expr = string_of(&slice_chars(&s, i + 2, k));
            let resolved = resolve_var(expr.as_str(), env);
            let ghost prev = out@;
            push_str(&mut out, resolved.as_str());
            let next = if k < n {
                k + 1
            } else {
                k
            };
            assert(out@ + expand_from(s@, next as int, env.pairs()) == expand_spec(
                s@,
                env.pairs(),
            )) by {
                assert(close_index(s@, i + 2) == k);
                assert(prev + expand_from(s@, i as int, env.pairs()) == expand_spec(s@, env.pairs()));
                assert(expand_from(s@, i as int, env.pairs()) == resolved@ + expand_from(s@, next as int, env.pairs()));
                assert(out@ + expand_from(s@, next as int, env.pairs()) =~= prev + (resolved@ + expand_from(s@, next as int, env.pairs())));
            }
            i = next;
        } else {
            let ghost prev = out@;
            out.push(s[i]);
            assert(out@ + expand_from(s@, i + 1, env.pairs()) =~= prev + (seq![s@[i as int]] + expand_from(s@, i + 1, env.pairs())));
            i = i + 1;
        }
    }
    string_of(&out)
}


/// A configuration value as the expansion sees it: strings, arrays and tables
/// are walked, anything else is carried through.
pub enum ConfValue {
    String(String),
    Array(Vec<ConfValue>),
    Table(Vec<(String, ConfValue)>),
    Other(toml::Value),
}

/// `new` is `old` with every string, at any depth, expanded against `env`;
/// the shape, the table keys and every other value are unchanged.
pub open spec fn expanded(old: ConfValue, new: ConfValue, env: Seq<(Seq<char>, Seq<char>)>) -> bool
    decreases old,
{
    match old {
        ConfValue::String(a) => match new {
            ConfValue::String(b) => b@ == expand_spec(a@, env),
            _ => false,
        },
        ConfValue::Array(xs) => match new {
            ConfValue::Array(ys) => xs@.len() == ys@.len() && forall|i: int|
                0 <= i < xs@.len() ==> expanded(#[trigger] xs@[i], ys@[i], env),
            _ => false,
        },
        ConfValue::Table(xs) => match new {
            ConfValue::Table(ys) => xs@.len() == ys@.len() && forall|i: int|
                0 <= i < xs@.len() ==> (#[trigger] xs@[i]).0@ == ys@[i].0@ && expanded(
                    xs@[i].1,
                    ys@[i].1,
                    env,
                ),
            _ => false,
        },
        ConfValue::Other(a) => match new {
            ConfValue::Other(b) => a == b,
            _ => false,
        },
    }
}

/// Expands every string inside `v`, consuming it.
fn expand_owned(v: ConfValue, env: &Env) -> (r: ConfValue)
    ensures
        expanded(v, r, env.pairs()),
    decreases v,
{
    match v {
        ConfValue::String(s) => ConfValue::String(expand_env_vars(s.as_str(), env)),
        ConfValue::Array(xs) => {
            let ghost orig = xs@;
            let ghost xs0 = xs;
            let mut rest = xs;
            let mut out: Vec<ConfValue> = Vec::new();
            while rest.len() > 0
                invariant
                    out@.len() + rest@.len() == orig.len(),
                    rest@ == orig.subrange(out@.len() as int, orig.len() as int),
                    forall|i: int| 0 <= i < out@.len() ==> expanded(#[trigger] orig[i], out@[i], env.pairs()),
                    v == ConfValue::Array(xs0),
                    xs0@ == orig,
                decreases rest@.len(),
            {
                let ghost k = out@.len() as int;
                let x = rest.remove(0);
                assert(x == orig[k]);
                assert(decreases_to!(v => x)) by {
                    assert(v->Array_0 == xs0);
                    assert(decreases_to!(v => v->Array_0));
                    assert(decreases_to!(xs0 => xs0@));
                    assert(decreases_to!(orig => orig[k]));
                }
                let y = expand_owned(x, env);
                out.push(y);
                assert(rest@ =~= orig.subrange(out@.len() as int, orig.len() as int));
            }
            ConfValue::Array(out)
        },
        ConfValue::Table(xs) => {
            let ghost orig = xs@;
            let ghost xs0 = xs;
            let mut rest = xs;
            let mut out: Vec<(String, ConfValue)> = Vec::new();
            while rest.len() > 0
                invariant
                    out@.len() + rest@.len() == orig.len(),
                    rest@ == orig.subrange(out@.len() as int, orig.len() as int),
                    forall|i: int| 0 <= i < out@.len() ==> (#[trigger] orig[i]).0@ == out@[i].0@ && expanded(orig[i].1, out@[i].1, env.pairs()),
                    v == ConfValue::Table(xs0),
                    xs0@ == orig,
                decreases rest@.len(),
            {
                let ghost k = out@.len() as int;
                let (key, x) = rest.remove(0);
                assert(x == orig[k].1);
                assert(decreases_to!(v => x)) by {
                    assert(v->Table_0 == xs0);
                    assert(decreases_to!(v => v->Table_0));
                    assert(decreases_to!(xs0 => xs0@));
                    assert(decreases_to!(orig => orig[k]));
                    assert(decreases_to!(orig[k] => orig[k].1));
                }
                let y = expand_owned(x, env);
                out.push((key, y));
                assert(rest@ =~= orig.subrange(out@.len() as int, orig.len() as int));
            }
            ConfValue::Table(out)
        },
        ConfValue::Other(t) => ConfValue::Other(t),
    }
}

/// Expands every string inside `value`, at any depth, against `env`.
pub fn expand_value(value: &mut ConfValue, env: &Env)
    ensures
        expanded(*old(value), *final(value), env.pairs()),
{
    let mut taken = ConfValue::Array(Vec::new());
    std::mem::swap(&mut taken, value);
    let r = expand_owned(taken, env);
    *value = r;
}

/// What `toml::from_str::<toml::Value>` gives for `text`, its tables, arrays
/// and strings taken apart one for one: `None` where the text is not a TOML
/// document.
pub uninterp spec fn spec_parse_toml(text: Seq<char>) -> Option<ConfValue>;

/// `toml::from_str::<toml::Value>`: parses a TOML document. Its result is a
/// function of the text alone; which texts parse, and to what, is not stated
/// here. A parse error gives `None`.
#[verifier::external_body]
pub(crate) fn parse_toml(text: &str) -> (r: Option<ConfValue>)
    ensures
        r == spec_parse_toml(text@),
{
    match toml::from_str::<toml::Value>(text) {
        Ok(v) => Some(conf_value_of(v)),
        Err(_) => None,
    }
}

/// The one-for-one conversion of the value that `parse_toml` gets from
/// `toml::from_str`: strings, arrays and tables taken apart at every depth,
/// every other value carried as it is. It is part of `parse_toml`, whose
/// contract speaks for it.
#[verifier::external_body]
fn conf_value_of(v: toml::Value) -> ConfValue {
    match v {
        toml::Value::String(s) => ConfValue::String(s),
        toml::Value::Array(a) => ConfValue::Array(a.into_iter().map(conf_value_of).collect()),
        toml::Value::Table(t) => ConfValue::Table(t.into_iter().map(|(k, v)| (k, conf_value_of(v))).collect()),
        other => ConfValue::Other(other),
    }
}

/// Reads the text of a configuration file: parses it as TOML and expands
/// every string in it against `env`; `None` where the text is not TOML.
pub fn read_config_text(text: &str, env: &Env) -> (r: Option<ConfValue>)
    ensures
        spec_parse_toml(text@) is None ==> r is None,
        spec_parse_toml(text@) matches Some(v) ==> (r matches Some(w) && expanded(v, w, env.pairs())),
{
    match parse_toml(text) {
        Some(v) => {
            let mut w = v;
            expand_value(&mut w, env);
            Some(w)
        },
        None => None,
    }
}

} // verus!
