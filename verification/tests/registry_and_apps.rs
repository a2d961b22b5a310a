use tinybot::adapt::app::{plan_actions, AdapterEventWithName, BotApp, PluginEventWithName};
use tinybot::adapt::plugin::{collect_actions, PluginManager};
use tinybot::config::ChannelEntry;
use tinybot::registry::{AdapterRegistry, BotRegistry, RegistryError};
use tinybot::sdk::{AdapterEvent, MessageContent, MessageEvent, MessageMeta, PluginEvent, PrivateMeta};

fn private(user: &str, text: &str) -> MessageEvent {
    MessageEvent {
        meta: MessageMeta::Private(PrivateMeta { user_id: user.into() }),
        content: MessageContent { text: text.into() },
    }
}

#[test]
fn adapter_registry_replaces_by_name() {
    let mut r = AdapterRegistry::new();
    r.register("qq", 1);
    r.register("tg", 2);
    r.register("qq", 3);
    assert_eq!(r.get("qq"), Some(&3));
    assert_eq!(r.get("none"), None);
    let mut all: Vec<(String, i32)> = r.iter().into_iter().map(|(k, v)| (k.clone(), *v)).collect();
    all.sort();
    assert_eq!(all, vec![("qq".to_string(), 3), ("tg".to_string(), 2)]);
}

#[test]
fn bot_registry_refuses_a_duplicate_id() {
    let mut r = BotRegistry::new();
    assert!(r.register("debug", "a").is_ok());
    match r.register("debug", "b") {
        Err(RegistryError::DuplicateId(id)) => assert_eq!(id, "debug"),
        Ok(()) => panic!("duplicate accepted"),
    }
    assert_eq!(r.get("debug"), Some(&"a"));
    assert_eq!(r.iter().len(), 1);
}

#[test]
fn plugin_manager_register_get_unregister() {
    let mut m = PluginManager::new();
    m.register("a", 10);
    m.register("b", 20);
    assert_eq!(m.get("a"), Some(&10));
    assert_eq!(m.unregister("a"), Some(10));
    assert_eq!(m.get("a"), None);
    assert_eq!(m.unregister("a"), None);
    let names = vec!["b".to_string(), "x".to_string(), "b".to_string()];
    let t = m.dispatch_targets(&names);
    assert_eq!(t.len(), 2);
    assert_eq!(t[0].0, "b");
    assert_eq!(*t[0].1, 20);
}

#[test]
fn collect_actions_keeps_order_and_drops_failures() {
    let results: Vec<Result<Vec<i32>, String>> = vec![Ok(vec![1, 2]), Err("x".into()), Ok(vec![3])];
    assert_eq!(collect_actions(results), vec![1, 2, 3]);
}

#[test]
fn app_routes_by_adapter_and_sender() {
    let mut app: BotApp<&str, i32> = BotApp::empty();
    assert!(app.has_no_bindings());
    let chans = vec![
        ChannelEntry { channel_id: "alice".into(), plugins: vec!["echo".into()] },
        ChannelEntry { channel_id: "*".into(), plugins: vec!["hello".into()] },
    ];
    app.register_adapter("qq", "qq-adapter", &chans);
    app.register_plugin("echo", 1);
    assert!(!app.has_no_bindings());
    let from_alice = AdapterEventWithName {
        adapter_name: "qq".into(),
        event: AdapterEvent::Message(private("alice", "hi")),
    };
    assert_eq!(app.route(&from_alice), vec!["echo".to_string()]);
    let from_bob = AdapterEventWithName {
        adapter_name: "qq".into(),
        event: AdapterEvent::Message(private("bob", "hi")),
    };
    assert_eq!(app.route(&from_bob), vec!["hello".to_string()]);
    let elsewhere = AdapterEventWithName {
        adapter_name: "tg".into(),
        event: AdapterEvent::Message(private("alice", "hi")),
    };
    assert!(app.route(&elsewhere).is_empty());
    app.bind_channel("qq", "bob", vec!["echo".into()]);
    assert_eq!(app.route(&from_bob), vec!["echo".to_string()]);
    let names = vec!["echo".to_string(), "hello".to_string()];
    let targets = app.dispatch_targets(&names);
    assert_eq!(targets.len(), 1);
    assert_eq!(targets[0].0, "echo");
}

#[test]
fn actions_go_back_to_the_delivering_adapter() {
    let mut app: BotApp<&str, i32> = BotApp::empty();
    app.register_adapter("qq", "qq-adapter", &vec![]);
    let planned = plan_actions("qq", vec![PluginEvent::Message(private("u", "a")), PluginEvent::Message(private("u", "b"))]);
    assert_eq!(planned.len(), 2);
    assert!(planned.iter().all(|p| p.adapter_name == "qq"));
    assert_eq!(app.adapter_for(&planned[0]), Some(&"qq-adapter"));
    let lost = PluginEventWithName { adapter_name: "tg".into(), event: PluginEvent::Message(private("u", "c")) };
    assert_eq!(app.adapter_for(&lost), None);
    assert_eq!(app.adapters_iter().len(), 1);
}
