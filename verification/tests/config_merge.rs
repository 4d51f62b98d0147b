use mica::config::merge::{merge_value, ConfigValue};

fn convert(value: toml::Value) -> ConfigValue {
    match value {
        toml::Value::Table(table) => {
            ConfigValue::Table(table.into_iter().map(|(k, v)| (k, convert(v))).collect())
        }
        other => ConfigValue::Leaf(other),
    }
}

fn back(value: ConfigValue) -> toml::Value {
    match value {
        ConfigValue::Table(entries) => {
            toml::Value::Table(entries.into_iter().map(|(k, v)| (k, back(v))).collect())
        }
        ConfigValue::Leaf(v) => v,
    }
}

fn parse(text: &str) -> ConfigValue {
    convert(toml::from_str::<toml::Value>(text).unwrap())
}

#[test]
fn deep_merge_preserves_user_values_and_applies_workspace_overrides() {
    let mut merged = parse("[editor]\ntab_width = 2\n[ui]\nsidebar_width = 40");
    merge_value(&mut merged, parse("[editor]\ninsert_spaces = false"));
    let merged = back(merged);
    assert_eq!(merged["editor"]["tab_width"].as_integer(), Some(2));
    assert_eq!(merged["editor"]["insert_spaces"].as_bool(), Some(false));
    assert_eq!(merged["ui"]["sidebar_width"].as_integer(), Some(40));
}

#[test]
fn a_later_value_replaces_and_a_table_replaces_a_value() {
    let mut merged = parse("theme = \"dark\"\n[editor]\ntab_width = 2");
    merge_value(&mut merged, parse("editor = 3\ntheme = \"light\"\n[ui]\nhigh_contrast = true"));
    let merged = back(merged);
    assert_eq!(merged["editor"].as_integer(), Some(3));
    assert_eq!(merged["theme"].as_str(), Some("light"));
    assert_eq!(merged["ui"]["high_contrast"].as_bool(), Some(true));
    let mut leaf = ConfigValue::Leaf(toml::Value::Integer(1));
    merge_value(&mut leaf, parse("[a]\nb = 1"));
    assert_eq!(back(leaf)["a"]["b"].as_integer(), Some(1));
}
