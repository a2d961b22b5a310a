use tinybot::bot::app::{BotApp, Route};
use tinybot::bot::events::{BotEvent, Message, MessageContent};
use tinybot::bot::hello::{Factory, HelloPluginFactory};
use tinybot::config::BindingConfig;

fn all_bound() -> Vec<BindingConfig> {
    vec![BindingConfig {
        botid: "*".into(),
        target_type: "*".into(),
        target_id: "*".into(),
        enabled: true,
        plugins: vec!["*".into()],
    }]
}

fn msg(ttype: &str, target: &str, text: &str) -> BotEvent {
    BotEvent::Message(Message {
        target_type: ttype.into(),
        target: target.into(),
        content: MessageContent { text: text.into() },
    })
}

fn app() -> BotApp<Factory<HelloPluginFactory>> {
    let mut app = BotApp::from_config(all_bound());
    app.register_builtins();
    app
}

fn reply_text(t: &tinybot::bot::app::Turn) -> Option<String> {
    t.reply.as_ref().map(|m| m.content.text.clone())
}

#[test]
fn ping_is_answered_by_the_builtin() {
    let mut a = app();
    let t = a.handle_event("bot1", &msg("group", "1", "  /ping "));
    assert!(matches!(t.route, Route::Builtin));
    assert_eq!(reply_text(&t), Some("pong!".to_string()));
    let r = t.reply.unwrap();
    assert_eq!(r.target_type, "group");
    assert_eq!(r.target, "1");
}

#[test]
fn hello_opens_a_conversation_and_the_next_message_closes_it() {
    let mut a = app();
    let t1 = a.handle_event("bot1", &msg("group", "1", "hello"));
    assert!(matches!(&t1.route, Route::Plugin(n) if n == "hello"));
    assert_eq!(reply_text(&t1), Some("hi!".to_string()));

    let t2 = a.handle_event("bot1", &msg("group", "1", "Bob"));
    assert!(matches!(t2.route, Route::Session));
    assert_eq!(reply_text(&t2), Some("hello Bob".to_string()));

    let t3 = a.handle_event("bot1", &msg("group", "1", "Bob"));
    assert!(matches!(t3.route, Route::Unhandled));
    assert!(t3.reply.is_none());
}

#[test]
fn conversations_are_kept_per_target() {
    let mut a = app();
    a.handle_event("bot1", &msg("group", "1", "hello"));
    let other = a.handle_event("bot1", &msg("group", "2", "Bob"));
    assert!(matches!(other.route, Route::Unhandled));
    let other_bot = a.handle_event("bot2", &msg("group", "1", "Bob"));
    assert!(matches!(other_bot.route, Route::Unhandled));
    let same = a.handle_event("bot1", &msg("group", "1", "Bob"));
    assert!(matches!(same.route, Route::Session));
}

#[test]
fn ping_during_a_conversation_leaves_it_open() {
    let mut a = app();
    a.handle_event("bot1", &msg("group", "1", "hello"));
    let p = a.handle_event("bot1", &msg("group", "1", "/ping"));
    assert!(matches!(p.route, Route::Builtin));
    let t = a.handle_event("bot1", &msg("group", "1", "Ann"));
    assert!(matches!(t.route, Route::Session));
    assert_eq!(reply_text(&t), Some("hello Ann".to_string()));
}

#[test]
fn unbound_target_is_unhandled() {
    let mut a: BotApp<Factory<HelloPluginFactory>> = BotApp::from_config(vec![BindingConfig {
        botid: "bot1".into(),
        target_type: "group".into(),
        target_id: "1".into(),
        enabled: true,
        plugins: vec!["hello".into()],
    }]);
    a.register_builtins();
    let t = a.handle_event("bot1", &msg("group", "2", "hello"));
    assert!(matches!(t.route, Route::Unhandled));
    let t = a.handle_event("bot1", &msg("group", "1", "hello"));
    assert!(matches!(t.route, Route::Plugin(_)));
}
