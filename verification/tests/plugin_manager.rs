use tinybot::bot::events::{BotEvent, Message, MessageContent};
use tinybot::bot::plugin::{Action, Plugin, PluginFactory, PluginManager};

struct MockFactory {
    active_val: bool,
}

struct MockPlugin;

impl Plugin for MockPlugin {
    // What `handle` below answers, as the trait's contracts name it.
    fn spec_handles(&self, _evt: BotEvent, _after: Self, r: Result<Action, String>) -> bool {
        matches!(r, Ok(Action { finish: false, reply: Some(ref c) }) if c.text == "mock")
    }

    fn handle(&mut self, _evt: &BotEvent) -> Result<Action, String> {
        Ok(Action { finish: false, reply: Some(MessageContent { text: "mock".into() }) })
    }
}

impl PluginFactory for MockFactory {
    type Instance = MockPlugin;

    // What `active` decides, as the trait's contracts name it.
    fn spec_active(&self, _evt: BotEvent) -> bool {
        self.active_val
    }

    // `create` below never fails.
    fn spec_always_creates(&self) -> bool {
        true
    }

    // Every `MockPlugin` is one this factory makes.
    fn spec_creates(&self, _p: MockPlugin) -> bool {
        true
    }

    fn active(&self, _evt: &BotEvent) -> bool {
        self.active_val
    }

    fn create(&self) -> Result<MockPlugin, String> {
        Ok(MockPlugin)
    }
}

fn evt() -> BotEvent {
    BotEvent::Message(Message {
        target_type: "group".into(),
        target: "123".into(),
        content: MessageContent { text: "hi".into() },
    })
}

#[test]
fn register_and_names() {
    let mut mgr = PluginManager::new();
    mgr.register("test", MockFactory { active_val: true });
    let names = mgr.names();
    assert_eq!(names, vec!["test"]);
}

#[test]
fn is_active_true() {
    let mut mgr = PluginManager::new();
    mgr.register("test", MockFactory { active_val: true });
    assert!(mgr.is_active("test", &evt()));
}

#[test]
fn is_active_false() {
    let mut mgr = PluginManager::new();
    mgr.register("test", MockFactory { active_val: false });
    assert!(!mgr.is_active("test", &evt()));
}

#[test]
fn is_active_missing_returns_false() {
    let mgr: PluginManager<MockFactory> = PluginManager::new();
    assert!(!mgr.is_active("nope", &evt()));
}

#[test]
fn get_returns_instance() {
    let mut mgr = PluginManager::new();
    mgr.register("test", MockFactory { active_val: true });
    assert!(mgr.get("test").is_some());
}

#[test]
fn get_missing_returns_none() {
    let mgr: PluginManager<MockFactory> = PluginManager::new();
    assert!(mgr.get("nope").is_none());
}

#[test]
fn register_twice_keeps_one_name() {
    let mut mgr = PluginManager::new();
    mgr.register("a", MockFactory { active_val: true });
    mgr.register("b", MockFactory { active_val: true });
    mgr.register("a", MockFactory { active_val: false });
    let mut names = mgr.names();
    names.sort();
    assert_eq!(names, vec!["a", "b"]);
    assert!(!mgr.is_active("a", &evt()));
}
