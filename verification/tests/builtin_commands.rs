use std::sync::Arc;

use tinybot::adapt::native::{builtin_commands, split_cmd, BuiltinPlugin, CmdContext};
use tinybot::sdk::{AdapterEvent, MessageContent, MessageEvent, MessageMeta, PluginEvent, PrivateMeta};

fn event(text: &str) -> AdapterEvent {
    AdapterEvent::Message(MessageEvent {
        meta: MessageMeta::Private(PrivateMeta { user_id: "u1".into() }),
        content: MessageContent { text: text.into() },
    })
}

fn plugin() -> BuiltinPlugin<tinybot::adapt::native::PingHandler> {
    BuiltinPlugin::new(builtin_commands(), Arc::new(CmdContext { start_time: std::time::Instant::now() }))
}

#[test]
fn split_cmd_doc_examples() {
    assert_eq!(split_cmd("/ping"), Some(("/ping", "")));
    assert_eq!(split_cmd("/echo hello world"), Some(("/echo", "hello world")));
    assert_eq!(split_cmd("普通消息"), None);
}

#[test]
fn split_cmd_trims_and_splits_at_first_space() {
    assert_eq!(split_cmd("  /say   a b  "), Some(("/say", "a b")));
    assert_eq!(split_cmd(""), None);
    assert_eq!(split_cmd("   "), None);
    assert_eq!(split_cmd("/"), Some(("/", "")));
}

#[test]
fn builtin_commands_hold_ping() {
    let cmds = builtin_commands();
    assert_eq!(cmds.len(), 1);
    assert_eq!(cmds[0].name, "ping");
}

#[test]
fn ping_is_answered_with_pong_to_the_sender() {
    let out = plugin().handle_event(&event(" /ping ")).unwrap();
    assert_eq!(out.len(), 1);
    match &out[0] {
        PluginEvent::Message(m) => {
            assert_eq!(m.content.text, "pong!");
            assert_eq!(m.meta, MessageMeta::Private(PrivateMeta { user_id: "u1".into() }));
        }
    }
}

#[test]
fn unknown_command_and_plain_text_get_nothing() {
    assert!(plugin().handle_event(&event("/nope")).unwrap().is_empty());
    assert!(plugin().handle_event(&event("ping")).unwrap().is_empty());
}
