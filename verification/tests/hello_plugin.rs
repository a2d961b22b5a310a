use tinybot::bot::events::{BotEvent, Message, MessageContent};
use tinybot::plugins::hello::HelloPlugin;

fn msg_event(text: &str) -> BotEvent {
    BotEvent::Message(Message {
        target_type: "group".into(),
        target: "123".into(),
        content: MessageContent { text: text.into() },
    })
}

#[test]
fn active_returns_true_for_hello() {
    let evt = msg_event("hello");
    assert!(HelloPlugin::active(evt));
}

#[test]
fn active_returns_true_for_hello_with_whitespace() {
    let evt = msg_event("  hello  ");
    assert!(HelloPlugin::active(evt));
}

#[test]
fn active_returns_false_for_other_text() {
    let evt = msg_event("hi");
    assert!(!HelloPlugin::active(evt));
}

#[test]
fn active_returns_false_for_empty() {
    let evt = msg_event("");
    assert!(!HelloPlugin::active(evt));
}

#[test]
fn handle_with_empty_asks_name() {
    let evt = msg_event("");
    let action = HelloPlugin::handle(evt);
    assert!(!action.finish);
    assert!(action.reply.is_some());
    assert!(action.reply.unwrap().text.contains("名字"));
}

#[test]
fn handle_with_text_greets() {
    let evt = msg_event("world");
    let action = HelloPlugin::handle(evt);
    assert!(action.finish);
    assert_eq!(action.reply.unwrap().text, "hello world");
}

#[test]
fn handle_trims_before_greeting() {
    let action = HelloPlugin::handle(msg_event("  Alice \n"));
    assert!(action.finish);
    assert_eq!(action.reply.unwrap().text, "hello Alice");
}

#[test]
fn handle_with_only_whitespace_asks_name() {
    let action = HelloPlugin::handle(msg_event(" \t "));
    assert!(!action.finish);
    assert_eq!(action.reply.unwrap().text, "你的名字是什么?");
}
