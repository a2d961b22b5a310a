//! The built-in command plugin: `/name args` messages dispatched to handlers.
use std::sync::Arc;

use vstd::prelude::*;

use crate::name_map::NameMap;
use crate::sdk::{AdapterEvent, MessageContent, MessageEvent, MessageMeta, PluginEvent, PrivateMeta};
use crate::text::{
    chars_of, find_char, first_index_of, is_ws, push_str, string_of, trim, trim_start, trim_str,
};

verus! {

/// `std::time::Instant`: a point on the monotonic clock.
#[verifier::external_type_specification]
#[verifier::external_body]
pub struct ExInstant(std::time::Instant);

/// What the commands share: when the bot started.
pub struct CmdContext {
    pub start_time: std::time::Instant,
}

/// A command handler: given the event, the argument text and the shared
/// context, the events to carry out.
pub trait CmdHandler {
    /// `r` is an answer the handler may give to `event` with argument text
    /// `args` in context `ctx`.
    spec fn spec_answers(
        &self,
        event: AdapterEvent,
        args: Seq<char>,
        ctx: CmdContext,
        r: Result<Vec<PluginEvent>, String>,
    ) -> bool;

    fn call(&self, event: &AdapterEvent, args: &str, ctx: &CmdContext) -> (r: Result<Vec<PluginEvent>, String>)
        ensures
            self.spec_answers(*event, args@, *ctx, r),
    ;
}

/// A built-in command: its name (without `/`), what it does, and its handler.
pub struct BuiltinCommand<H> {
    pub name: &'static str,
    pub description: &'static str,
    pub handler: H,
}

/// What `split_cmd` gives: for a trimmed text starting with `/`, the part
/// before the first space and the trimmed rest (empty without a space).
pub open spec fn split_cmd_spec(text: Seq<char>) -> Option<(Seq<char>, Seq<char>)> {
    let t = trim(text);
    if t.len() == 0 || t[0] != '/' {
        None
    } else {
        match first_index_of(t, ' ') {
            Some(p) => Some((t.subrange(0, p), trim(t.subrange(p, t.len() as int)))),
            None => Some((t, Seq::empty())),
        }
    }
}

/// A word: not empty, and no whitespace in it.
pub open spec fn is_word(w: Seq<char>) -> bool {
    w.len() > 0 && forall|i: int| 0 <= i < w.len() ==> !is_ws(#[trigger] w[i])
}

/// A command `/name` alone splits into itself and no arguments; followed by
/// a space and an argument text that does not start or end with whitespace,
/// it splits into itself and that text. Text not starting with `/` is no
/// command.
pub proof fn law_split_cmd_words(c: Seq<char>, a: Seq<char>)
    requires
        is_word(c),
        c[0] == '/',
        a.len() > 0,
        !is_ws(a[0]),
        !is_ws(a.last()),
    ensures
        split_cmd_spec(c) == Some((c, Seq::<char>::empty())),
        split_cmd_spec(c + seq![' '] + a) == Some((c, a)),
        split_cmd_spec(a) is Some ==> a[0] == '/',
{
    assert(!is_ws(c.last()));
    assert(trim_start(c) == c);
    assert(trim(c) == c);
    assert(!(exists|i: int| 0 <= i < c.len() && c[i] == ' ')) by {
        assert forall|i: int| 0 <= i < c.len() implies c[i] != ' ' by {
            assert(!is_ws(c[i]));
        }
    }
    let s = c + seq![' '] + a;
    let k = c.len() as int;
    assert(s[0] == c[0]);
    assert(s.last() == a.last());
    assert(trim_start(s) == s);
    assert(trim(s) == s);
    assert(s[k] == ' ');
    assert(forall|j: int| 0 <= j < k ==> s[j] == c[j]);
    let p = choose|i: int| 0 <= i < s.len() && s[i] == ' ' && forall|j: int| 0 <= j < i ==> s[j] != ' ';
    assert(forall|j: int| 0 <= j < k ==> s[j] != ' ') by {
        assert forall|j: int| 0 <= j < k implies s[j] != ' ' by {
            assert(!is_ws(c[j]));
        }
    }
    if p < k {
        assert(!is_ws(c[p]));
    }
    assert(p == k);
    assert(first_index_of(s, ' ') == Some(k));
    assert(s.subrange(0, k) =~= c);
    let r = s.subrange(k, s.len() as int);
    assert(r =~= seq![' '] + a);
    assert(r.drop_first() =~= a);
    assert(trim_start(a) == a);
    assert(trim_start(r) == a);
    assert(trim(r) == a);
    if split_cmd_spec(a) is Some {
        assert(trim_start(a) == a);
    }
}

/// Splits a message into command name and arguments:
/// `"/ping"` gives `("/ping", "")`, `"/echo hello world"` gives
/// `("/echo", "hello world")`, and a text not starting with `/` gives `None`.
pub fn split_cmd(text: &str) -> (r: Option<(&str, &str)>)
    ensures
        r matches Some(p) ==> split_cmd_spec(text@) == Some((p.0@, p.1@)),
        r is None <==> split_cmd_spec(text@) is None,
{
    let t = trim_str(text);
    let tc = chars_of(t);
    if tc.len() == 0 || tc[0] != '/' {
        return None;
    }
    match find_char(&tc, ' ') {
        Some(p) => {
            let cmd = t.substring_char(0, p);
            let rest = t.substring_char(p, tc.len());
            Some((cmd, trim_str(rest)))
        },
        None => {
            let empty = "";
            proof {
                reveal_strlit("");
            }
            assert(empty@ =~= Seq::<char>::empty());
            Some((t, empty))
        },
    }
}

/// The commands by `/name`; a later command with the same name wins.
pub open spec fn command_map<H>(cmds: Seq<BuiltinCommand<H>>) -> Map<Seq<char>, BuiltinCommand<H>>
    decreases cmds.len(),
{
    if cmds.len() == 0 {
        Map::empty()
    } else {
        command_map(cmds.drop_last()).insert(seq!['/'] + cmds.last().name@, cmds.last())
    }
}

/// The plugin that answers `/name args` messages with the named command.
pub struct BuiltinPlugin<H> {
    commands: NameMap<BuiltinCommand<H>>,
    ctx: Arc<CmdContext>,
}

impl<H: CmdHandler> BuiltinPlugin<H> {
    /// The commands by `/name`.
    pub closed spec fn view(&self) -> Map<Seq<char>, BuiltinCommand<H>> {
        self.commands@
    }

    /// The context shared by the commands.
    pub closed spec fn context(&self) -> CmdContext {
        *self.ctx
    }

    /// `text` is a command message naming a registered command.
    pub open spec fn names_command(&self, text: Seq<char>) -> bool {
        match split_cmd_spec(text) {
            Some(p) => self.view().contains_key(p.0),
            None => false,
        }
    }

    /// The plugin with `commands`, each under `/` and its name.
    pub fn new(commands: Vec<BuiltinCommand<H>>, ctx: Arc<CmdContext>) -> (r: Self)
        ensures
            r.view() == command_map(commands@),
            r.context() == *ctx,
    {
        let ghost orig = commands@;
        let mut rest = commands;
        let mut cmd_map: NameMap<BuiltinCommand<H>> = NameMap::new();
        let ghost mut k: int = 0;
        while rest.len() > 0
            invariant
                0 <= k <= orig.len(),
                k + rest@.len() == orig.len(),
                rest@ == orig.subrange(k, orig.len() as int),
                cmd_map@ == command_map(orig.subrange(0, k)),
            decreases rest@.len(),
        {
            let cmd = rest.remove(0);
            proof {
                assert(orig.subrange(0, k + 1).drop_last() =~= orig.subrange(0, k));
                assert(orig.subrange(0, k + 1).last() == cmd);
            }
            let mut key: Vec<char> = Vec::new();
            key.push('/');
            push_str(&mut key, cmd.name);
            let ks = string_of(&key);
            assert(ks@ =~= seq!['/'] + cmd.name@);
            cmd_map.insert(ks, cmd);
            proof {
                k = k + 1;
            }
            assert(rest@ =~= orig.subrange(k, orig.len() as int));
        }
        assert(orig.subrange(0, k) =~= orig);
        BuiltinPlugin { commands: cmd_map, ctx }
    }

    /// Answers a message naming a registered command with that command's
    /// handler, given the argument text; any other message with no events.
    pub fn handle_event(&self, event: &AdapterEvent) -> (r: Result<Vec<PluginEvent>, String>)
        ensures
            !self.names_command(event.text()) ==> (r matches Ok(v) && v@.len() == 0),
            self.names_command(event.text()) ==> {
                let p = split_cmd_spec(event.text())->0;
                self.view()[p.0].handler.spec_answers(*event, p.1, self.context(), r)
            },
    {
        let text = match event {
            AdapterEvent::Message(m) => m.content.text.as_str(),
        };
        match split_cmd(text) {
            Some((cmd_name, args)) => match self.commands.get_str(cmd_name) {
                Some(cmd) => cmd.handler.call(event, args, &self.ctx),
                None => Ok(Vec::new()),
            },
            None => Ok(Vec::new()),
        }
    }
}

/// `e` is a `pong!` message to the private user `user`.
pub open spec fn is_pong_to(e: PluginEvent, user: Seq<char>) -> bool {
    match e {
        PluginEvent::Message(m) => match m.meta {
            MessageMeta::Private(p) => p.user_id@ == user && m.content.text@ == "pong!"@,
        },
    }
}

/// Answers `pong!` to whoever sent the message.
pub struct PingHandler;

impl CmdHandler for PingHandler {
    /// A single `pong!` message to the sender.
    open spec fn spec_answers(
        &self,
        event: AdapterEvent,
        args: Seq<char>,
        ctx: CmdContext,
        r: Result<Vec<PluginEvent>, String>,
    ) -> bool {
        r matches Ok(v) && v@.len() == 1 && is_pong_to(v@[0], event.user_id())
    }

    fn call(&self, event: &AdapterEvent, args: &str, ctx: &CmdContext) -> (r: Result<Vec<PluginEvent>, String>)
        ensures
            r matches Ok(v) && v@.len() == 1 && is_pong_to(v@[0], event.user_id()),
    {
        let user_id = match event {
            AdapterEvent::Message(m) => match &m.meta {
                MessageMeta::Private(p) => p.user_id.clone(),
            },
        };
        let mut v: Vec<PluginEvent> = Vec::new();
        v.push(
            PluginEvent::Message(
                MessageEvent {
                    meta: MessageMeta::Private(PrivateMeta { user_id }),
                    content: MessageContent { text: String::from_str("pong!") },
                },
            ),
        );
        Ok(v)
    }
}

/// The built-in commands: `ping`, answered with `pong!`.
pub fn builtin_commands() -> (v: Vec<BuiltinCommand<PingHandler>>)
    ensures
        v@.len() == 1,
        v@[0].name@ == "ping"@,
        v@[0].description@ == "回复 pong"@,
{
    let mut v: Vec<BuiltinCommand<PingHandler>> = Vec::new();
    v.push(BuiltinCommand { name: "ping", description: "回复 pong", handler: PingHandler });
    v
}

} // verus!
