use tinybot::bot::binding::Bindings;
use tinybot::config::BindingConfig;

fn cfg(botid: &str, target_type: &str, target_id: &str, plugins: Vec<&str>) -> BindingConfig {
    BindingConfig {
        botid: botid.to_string(),
        target_type: target_type.to_string(),
        target_id: target_id.to_string(),
        enabled: true,
        plugins: plugins.into_iter().map(String::from).collect(),
    }
}

fn plugins(list: &[&str]) -> Vec<String> {
    list.iter().map(|s| s.to_string()).collect()
}

#[test]
fn empty_bindings_returns_empty() {
    let b = Bindings::new(vec![]);
    let result = b.get_plugin_list("bot1", "group", "123", &plugins(&[]));
    assert!(result.is_empty());
}

#[test]
fn exact_match_single_binding() {
    let b = Bindings::new(vec![cfg("bot1", "group", "123", vec!["hello"])]);
    let result = b.get_plugin_list("bot1", "group", "123", &plugins(&["hello"]));
    assert_eq!(result, vec!["hello"]);
}

#[test]
fn wildcard_match_botid() {
    let b = Bindings::new(vec![cfg("*", "group", "123", vec!["hello"])]);
    let result = b.get_plugin_list("bot2", "group", "123", &plugins(&["hello"]));
    assert_eq!(result, vec!["hello"]);
}

#[test]
fn wildcard_match_target_type() {
    let b = Bindings::new(vec![cfg("bot1", "*", "123", vec!["hello"])]);
    let result = b.get_plugin_list("bot1", "group", "123", &plugins(&["hello"]));
    assert_eq!(result, vec!["hello"]);
}

#[test]
fn no_match_returns_empty() {
    let b = Bindings::new(vec![cfg("bot1", "group", "123", vec!["hello"])]);
    let result = b.get_plugin_list("bot1", "group", "999", &plugins(&["hello"]));
    assert!(result.is_empty());
}

#[test]
fn wildcard_plugin_pattern_matches_any() {
    let b = Bindings::new(vec![cfg("bot1", "group", "123", vec!["*"])]);
    let mut result = b.get_plugin_list("bot1", "group", "123", &plugins(&["hello", "dice"]));
    result.sort();
    assert_eq!(result, vec!["dice", "hello"]);
}

#[test]
fn plugin_dedup() {
    let b = Bindings::new(vec![
        cfg("bot1", "group", "123", vec!["hello"]),
        cfg("bot1", "group", "123", vec!["hello", "dice"]),
    ]);
    let mut result = b.get_plugin_list("bot1", "group", "123", &plugins(&["hello", "dice"]));
    result.sort();
    assert_eq!(result, vec!["dice", "hello"]);
}

#[test]
fn disabled_binding_ignored() {
    let mut disabled = cfg("bot1", "group", "123", vec!["hello"]);
    disabled.enabled = false;
    let b = Bindings::new(vec![disabled]);
    let result = b.get_plugin_list("bot1", "group", "123", &plugins(&["hello"]));
    assert!(result.is_empty());
}

#[test]
fn group_prefix_glob() {
    let b = Bindings::new(vec![cfg("bot1", "group:*", "123", vec!["hello"])]);
    let result = b.get_plugin_list("bot1", "group:456", "123", &plugins(&["hello"]));
    assert_eq!(result, vec!["hello"]);
}

#[test]
fn unregistered_plugins_are_left_out() {
    let b = Bindings::new(vec![cfg("*", "*", "*", vec!["hello", "ghost"])]);
    let result = b.get_plugin_list("bot1", "group", "1", &plugins(&["hello"]));
    assert_eq!(result, vec!["hello"]);
}

#[test]
fn every_plugin_appears_once_across_bindings() {
    let b = Bindings::new(vec![
        cfg("bot*", "group", "*", vec!["h*"]),
        cfg("*", "*", "12?", vec!["hello", "*"]),
    ]);
    let mut result = b.get_plugin_list("bot7", "group", "123", &plugins(&["hello", "help", "dice"]));
    result.sort();
    assert_eq!(result, vec!["dice", "hello", "help"]);
}
