use tinybot::config::{expand_env_vars, expand_value, read_config_text, resolve_var, ConfValue, Env};

fn env(pairs: &[(&str, &str)]) -> Env {
    Env { vars: pairs.iter().map(|(k, v)| (k.to_string(), v.to_string())).collect() }
}

fn from_toml(v: toml::Value) -> ConfValue {
    match v {
        toml::Value::String(s) => ConfValue::String(s),
        toml::Value::Array(a) => ConfValue::Array(a.into_iter().map(from_toml).collect()),
        toml::Value::Table(t) => ConfValue::Table(t.into_iter().map(|(k, v)| (k, from_toml(v))).collect()),
        other => ConfValue::Other(other),
    }
}

fn to_toml(v: ConfValue) -> toml::Value {
    match v {
        ConfValue::String(s) => toml::Value::String(s),
        ConfValue::Array(a) => toml::Value::Array(a.into_iter().map(to_toml).collect()),
        ConfValue::Table(t) => {
            let mut m = toml::map::Map::new();
            for (k, v) in t {
                m.insert(k, to_toml(v));
            }
            toml::Value::Table(m)
        }
        ConfValue::Other(o) => o,
    }
}

#[test]
fn parser_expand_no_var() {
    assert_eq!(expand_env_vars("hello world", &env(&[])), "hello world");
}

#[test]
fn core_parser_expand_no_var() {
    assert_eq!(expand_env_vars("hello world", &env(&[])), "hello world");
}

#[test]
fn parser_expand_var_exists() {
    let e = env(&[("TEST_EXPAND_A", "value123")]);
    assert_eq!(expand_env_vars("prefix_${TEST_EXPAND_A}_suffix", &e), "prefix_value123_suffix");
}

#[test]
fn parser_expand_var_missing() {
    assert_eq!(expand_env_vars("${TEST_NONEXIST}", &env(&[])), "");
}

#[test]
fn parser_expand_var_default() {
    assert_eq!(expand_env_vars("${TEST_NONEXIST:-fallback}", &env(&[])), "fallback");
}

#[test]
fn parser_expand_var_default_with_existing() {
    let e = env(&[("TEST_EXPAND_B", "real")]);
    assert_eq!(expand_env_vars("${TEST_EXPAND_B:-fallback}", &e), "real");
}

#[test]
fn parser_expand_multiple_vars() {
    let e = env(&[("TEST_A", "a"), ("TEST_B", "b")]);
    assert_eq!(expand_env_vars("${TEST_A}:${TEST_B}", &e), "a:b");
}

#[test]
fn parser_toml_value_expand_recursive() {
    let toml_str = r#"
        app_id = "${TEST_A}"
        [nested]
        key = "val_${TEST_B:-x}"
    "#;
    let e = env(&[("TEST_A", "app123")]);
    let parsed: toml::Value = toml::from_str(toml_str).unwrap();
    let mut value = from_toml(parsed);
    expand_value(&mut value, &e);
    let expanded = toml::to_string(&to_toml(value)).unwrap();
    assert!(expanded.contains("app_id = \"app123\""));
    assert!(expanded.contains("key = \"val_x\""));
}

#[test]
fn expand_unclosed_placeholder_runs_to_end() {
    let e = env(&[("HOME", "/root")]);
    assert_eq!(expand_env_vars("a${HOME", &e), "a/root");
}

#[test]
fn expand_first_variable_of_a_name_wins() {
    let e = env(&[("X", "one"), ("X", "two")]);
    assert_eq!(expand_env_vars("${X}", &e), "one");
}

#[test]
fn expand_keeps_a_lone_dollar() {
    assert_eq!(expand_env_vars("cost: $5 {x}", &env(&[])), "cost: $5 {x}");
}

#[test]
fn expand_set_but_empty_variable_wins_over_default() {
    let e = env(&[("E", "")]);
    assert_eq!(expand_env_vars("[${E:-d}]", &e), "[]");
}

#[test]
fn resolve_var_with_and_without_default() {
    let e = env(&[("A", "1")]);
    assert_eq!(resolve_var("A", &e), "1");
    assert_eq!(resolve_var("B", &e), "");
    assert_eq!(resolve_var("B:-two", &e), "two");
    assert_eq!(resolve_var("A:-two", &e), "1");
}

#[test]
fn expand_value_reaches_arrays_and_leaves_other_values() {
    let e = env(&[("N", "x")]);
    let mut v = ConfValue::Array(vec![
        ConfValue::String("${N}".into()),
        ConfValue::Other(toml::Value::Integer(7)),
    ]);
    expand_value(&mut v, &e);
    match v {
        ConfValue::Array(items) => {
            assert!(matches!(&items[0], ConfValue::String(s) if s == "x"));
            assert!(matches!(&items[1], ConfValue::Other(toml::Value::Integer(7))));
        }
        _ => panic!("expected an array"),
    }
}

fn table_get<'a>(v: &'a ConfValue, key: &str) -> &'a ConfValue {
    match v {
        ConfValue::Table(t) => &t.iter().find(|(k, _)| k == key).expect("key present").1,
        _ => panic!("expected a table"),
    }
}

#[test]
fn read_config_text_parses_and_expands() {
    let text = "app_id = \"${TEST_A}\"\nport = 8080\n[nested]\nkey = \"val_${TEST_B:-x}\"\nlist = [\"${TEST_A}\", \"b\"]\n";
    let e = env(&[("TEST_A", "app123")]);
    let v = read_config_text(text, &e).expect("valid TOML");
    assert!(matches!(table_get(&v, "app_id"), ConfValue::String(s) if s == "app123"));
    assert!(matches!(table_get(&v, "port"), ConfValue::Other(toml::Value::Integer(8080))));
    let nested = table_get(&v, "nested");
    assert!(matches!(table_get(nested, "key"), ConfValue::String(s) if s == "val_x"));
    match table_get(nested, "list") {
        ConfValue::Array(items) => {
            assert_eq!(items.len(), 2);
            assert!(matches!(&items[0], ConfValue::String(s) if s == "app123"));
            assert!(matches!(&items[1], ConfValue::String(s) if s == "b"));
        }
        _ => panic!("expected an array"),
    }
}

#[test]
fn read_config_text_refuses_invalid_toml() {
    assert!(read_config_text("key = = 1", &env(&[])).is_none());
    assert!(read_config_text("[unclosed", &env(&[])).is_none());
}
