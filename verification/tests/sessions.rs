use tinybot::bot::events::{BotEvent, MessageContent};
use tinybot::bot::plugin::{Action, Plugin};
use tinybot::bot::session::SessionMgr;

struct DummyPlugin;

impl Plugin for DummyPlugin {
    // What `handle` below answers, as the trait's contracts name it.
    fn spec_handles(&self, _evt: BotEvent, _after: Self, r: Result<Action, String>) -> bool {
        matches!(r, Ok(Action { finish: true, reply: Some(ref c) }) if c.text == "dummy")
    }

    fn handle(&mut self, _evt: &BotEvent) -> Result<Action, String> {
        Ok(Action { finish: true, reply: Some(MessageContent { text: "dummy".into() }) })
    }
}

fn dummy_plugin() -> DummyPlugin {
    DummyPlugin
}

#[test]
fn new_session_mgr_is_empty() {
    let mgr: SessionMgr<DummyPlugin> = SessionMgr::new();
    assert!(mgr.is_empty());
}

#[test]
fn create_and_get_session() {
    let mut mgr = SessionMgr::new();
    mgr.create_session("bot1", "group", "123", dummy_plugin());
    assert!(mgr.get_session("bot1", "group", "123").is_some());
}

#[test]
fn get_nonexistent_session() {
    let mgr: SessionMgr<DummyPlugin> = SessionMgr::new();
    assert!(mgr.get_session("bot1", "group", "123").is_none());
}

#[test]
fn remove_session() {
    let mut mgr = SessionMgr::new();
    mgr.create_session("bot1", "group", "123", dummy_plugin());
    mgr.remove_session("bot1", "group", "123");
    assert!(mgr.get_session("bot1", "group", "123").is_none());
}

#[test]
fn different_keys_independent() {
    let mut mgr = SessionMgr::new();
    mgr.create_session("bot1", "group", "123", dummy_plugin());
    mgr.create_session("bot2", "channel", "abc", dummy_plugin());
    assert!(mgr.get_session("bot1", "group", "123").is_some());
    assert!(mgr.get_session("bot2", "channel", "abc").is_some());
    mgr.remove_session("bot1", "group", "123");
    assert!(mgr.get_session("bot1", "group", "123").is_none());
    assert!(mgr.get_session("bot2", "channel", "abc").is_some());
}

#[test]
fn overwrite_existing_session() {
    let mut mgr = SessionMgr::new();
    mgr.create_session("bot1", "group", "123", dummy_plugin());
    mgr.create_session("bot1", "group", "123", dummy_plugin());
    let count = mgr.len();
    assert_eq!(count, 1);
}

#[test]
fn session_records_its_key() {
    let mut mgr = SessionMgr::new();
    mgr.create_session("bot1", "group", "123", dummy_plugin());
    let s = mgr.get_session("bot1", "group", "123").unwrap();
    assert_eq!(s.bid, "bot1");
    assert_eq!(s.target_type, "group");
    assert_eq!(s.target_id, "123");
}
