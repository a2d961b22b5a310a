use tinybot::adapt::binding::ChannelBinding;

fn list(v: &[&str]) -> Vec<String> {
    v.iter().map(|s| s.to_string()).collect()
}

#[test]
fn new_binding_is_empty_and_resolves_nothing() {
    let b = ChannelBinding::new();
    assert!(b.is_empty());
    assert!(b.resolve("qq", "c2c:1").is_empty());
}

#[test]
fn exact_match_comes_first() {
    let mut b = ChannelBinding::new();
    b.add("qq", "c2c:1".into(), list(&["a"]));
    b.add("qq", "c2c:*".into(), list(&["b"]));
    b.add("qq", "*".into(), list(&["c"]));
    assert!(!b.is_empty());
    assert_eq!(b.resolve("qq", "c2c:1"), list(&["a"]));
    assert_eq!(b.resolve("qq", "c2c:2"), list(&["b"]));
    assert_eq!(b.resolve("qq", "group:9"), list(&["c"]));
    assert_eq!(b.resolve("qq", "plain"), list(&["c"]));
}

#[test]
fn empty_lists_fall_through() {
    let mut b = ChannelBinding::new();
    b.add("qq", "c2c:1".into(), list(&[]));
    b.add("qq", "c2c:*".into(), list(&[]));
    b.add("qq", "*".into(), list(&["z"]));
    assert_eq!(b.resolve("qq", "c2c:1"), list(&["z"]));
}

#[test]
fn unknown_adapter_resolves_nothing() {
    let mut b = ChannelBinding::new();
    b.add("qq", "*".into(), list(&["z"]));
    assert!(b.resolve("tg", "c2c:1").is_empty());
}

#[test]
fn later_add_replaces_the_list() {
    let mut b = ChannelBinding::new();
    b.add("qq", "c2c:1".into(), list(&["a"]));
    b.add("qq", "c2c:1".into(), list(&["b", "c"]));
    assert_eq!(b.resolve("qq", "c2c:1"), list(&["b", "c"]));
}

#[test]
fn type_wildcard_uses_the_first_colon() {
    let mut b = ChannelBinding::new();
    b.add("qq", "group:*".into(), list(&["g"]));
    assert_eq!(b.resolve("qq", "group:1:2"), list(&["g"]));
}

#[test]
fn binding_one_adapter_leaves_another_unchanged() {
    let mut b = ChannelBinding::new();
    b.add("tg", "*".into(), list(&["t"]));
    let before = b.resolve("tg", "c2c:1");
    b.add("qq", "c2c:1".into(), list(&["q"]));
    b.add("qq", "*".into(), list(&["r"]));
    assert_eq!(b.resolve("tg", "c2c:1"), before);
    assert_eq!(before, list(&["t"]));
}
