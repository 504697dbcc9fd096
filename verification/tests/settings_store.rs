use argus::settings::database::error::Error;
use argus::settings::database::json::{split_path, values_equal, JsonValue};
use argus::settings::database::state::DatabaseState;

fn s(x: &str) -> String {
    x.to_string()
}

fn txt(x: &str) -> JsonValue {
    JsonValue::Text(x.to_string())
}

fn num(n: i64) -> JsonValue {
    JsonValue::Number(n)
}

fn flag(b: bool) -> JsonValue {
    JsonValue::Bool(b)
}

fn arr(items: Vec<JsonValue>) -> JsonValue {
    JsonValue::Array(items)
}

fn obj(pairs: Vec<(&str, JsonValue)>) -> JsonValue {
    JsonValue::Object(pairs.into_iter().map(|(k, v)| (k.to_string(), v)).collect())
}

fn get_field<'a>(v: &'a JsonValue, key: &str) -> &'a JsonValue {
    match v {
        JsonValue::Object(fields) => {
            for (k, val) in fields {
                if k == key {
                    return val;
                }
            }
            panic!("key {} not found", key);
        }
        _ => panic!("not an object"),
    }
}

#[test]
fn test_basic_set_get() {
    let mut db_state = DatabaseState::new();

    let config = obj(vec![("theme", txt("dark")), ("language", txt("fr"))]);
    db_state.set_setting(&s("app_config"), &config);
    let retrieved = db_state.get_setting(&s("app_config")).unwrap();
    assert!(values_equal(&config, &retrieved));
}

#[test]
fn test_set_get_with_custom_struct() {
    let mut db_state = DatabaseState::new();

    let config = obj(vec![
        ("name", txt("test_app")),
        ("version", num(42)),
        ("features", arr(vec![txt("feature1"), txt("feature2")])),
    ]);

    db_state.set_setting(&s("test_config"), &config);
    let retrieved = db_state.get_setting(&s("test_config")).unwrap();
    assert!(values_equal(&config, &retrieved));
}

#[test]
fn test_get_nonexistent_setting() {
    let db_state = DatabaseState::new();

    let result = db_state.get_setting(&s("nonexistent"));
    assert!(result.is_none());
}

#[test]
fn test_get_setting_or_default() {
    let mut db_state = DatabaseState::new();

    let default_config = db_state.get_setting_or_default(&s("missing_config"));
    assert!(values_equal(&default_config, &JsonValue::Null));

    let custom_config = obj(vec![
        ("name", txt("custom")),
        ("version", num(2)),
        ("features", arr(vec![txt("advanced")])),
    ]);
    db_state.set_setting(&s("existing_config"), &custom_config);
    let retrieved_config = db_state.get_setting_or_default(&s("existing_config"));
    assert!(values_equal(&retrieved_config, &custom_config));
}

#[test]
fn test_overwrite_existing_setting() {
    let mut db_state = DatabaseState::new();

    let config1 = obj(vec![("version", num(1))]);
    db_state.set_setting(&s("config"), &config1);

    let config2 = obj(vec![("version", num(2)), ("new_field", txt("test"))]);
    db_state.set_setting(&s("config"), &config2);

    let retrieved = db_state.get_setting(&s("config")).unwrap();
    assert!(values_equal(&retrieved, &config2));
    assert!(!values_equal(&retrieved, &config1));
}

#[test]
fn test_primitive_types_as_json_values() {
    let mut db_state = DatabaseState::new();

    db_state.set_setting(&s("string_as_value"), &txt("test"));
    let string_val = db_state.get_setting(&s("string_as_value")).unwrap();
    assert!(values_equal(&string_val, &txt("test")));

    db_state.set_setting(&s("number_as_value"), &num(42));
    let number_val = db_state.get_setting(&s("number_as_value")).unwrap();
    assert!(values_equal(&number_val, &num(42)));

    db_state.set_setting(&s("bool_as_value"), &flag(true));
    let bool_val = db_state.get_setting(&s("bool_as_value")).unwrap();
    assert!(values_equal(&bool_val, &flag(true)));
}

#[test]
fn test_merge_json_deep() {
    let mut db_state = DatabaseState::new();

    let initial_config = obj(vec![
        ("theme", txt("light")),
        (
            "user",
            obj(vec![
                ("name", txt("John")),
                (
                    "preferences",
                    obj(vec![("notifications", flag(true)), ("auto_save", flag(false))]),
                ),
            ]),
        ),
        ("features", obj(vec![("beta", flag(false))])),
    ]);
    db_state.set_setting(&s("config"), &initial_config);

    let new_data = obj(vec![
        ("theme", txt("dark")),
        (
            "user",
            obj(vec![
                ("email", txt("john@example.com")),
                (
                    "preferences",
                    obj(vec![("language", txt("fr")), ("auto_save", flag(true))]),
                ),
            ]),
        ),
        (
            "features",
            obj(vec![("beta", flag(true)), ("experimental", flag(true))]),
        ),
        ("new_section", obj(vec![("value", num(42))])),
    ]);
    db_state.merge_settings(&s("config"), &new_data);

    let result = db_state.get_setting(&s("config")).unwrap();

    assert!(values_equal(get_field(&result, "theme"), &txt("dark")));
    let user = get_field(&result, "user");
    assert!(values_equal(get_field(user, "name"), &txt("John")));
    assert!(values_equal(get_field(user, "email"), &txt("john@example.com")));
    let prefs = get_field(user, "preferences");
    assert!(values_equal(get_field(prefs, "notifications"), &flag(true)));
    assert!(values_equal(get_field(prefs, "language"), &txt("fr")));
    assert!(values_equal(get_field(prefs, "auto_save"), &flag(true)));
    let features = get_field(&result, "features");
    assert!(values_equal(get_field(features, "beta"), &flag(true)));
    assert!(values_equal(get_field(features, "experimental"), &flag(true)));
    let new_section = get_field(&result, "new_section");
    assert!(values_equal(get_field(new_section, "value"), &num(42)));
}

#[test]
fn test_merge_arrays() {
    let mut db_state = DatabaseState::new();

    let initial = obj(vec![
        ("tags", arr(vec![txt("tag1"), txt("tag2")])),
        ("numbers", arr(vec![num(1), num(2), num(3)])),
    ]);
    db_state.set_setting(&s("arrays"), &initial);

    let new_data = obj(vec![
        ("tags", arr(vec![txt("tag3"), txt("tag4")])),
        ("numbers", arr(vec![num(4), num(5)])),
    ]);
    db_state.merge_settings(&s("arrays"), &new_data);

    let result = db_state.get_setting(&s("arrays")).unwrap();
    assert!(values_equal(
        get_field(&result, "tags"),
        &arr(vec![txt("tag1"), txt("tag2"), txt("tag3"), txt("tag4")])
    ));
    assert!(values_equal(
        get_field(&result, "numbers"),
        &arr(vec![num(1), num(2), num(3), num(4), num(5)])
    ));
}

#[test]
fn test_merge_with_nonexistent_base() {
    let mut db_state = DatabaseState::new();

    let new_data = obj(vec![("theme", txt("dark")), ("version", num(1))]);

    db_state.merge_settings(&s("new_config"), &new_data);

    let result = db_state.get_setting(&s("new_config")).unwrap();
    assert!(values_equal(&result, &new_data));
}

#[test]
fn test_nested_operations_comprehensive() {
    let mut db_state = DatabaseState::new();

    let config = obj(vec![(
        "app",
        obj(vec![
            (
                "ui",
                obj(vec![
                    ("theme", txt("light")),
                    (
                        "font",
                        obj(vec![("family", txt("Arial")), ("size", num(12))]),
                    ),
                ]),
            ),
            ("behavior", obj(vec![("auto_save", flag(true))])),
        ]),
    )]);
    db_state.set_setting(&s("config"), &config);

    db_state
        .set_nested_setting(&s("config"), &s("app.ui.theme"), &txt("dark"))
        .unwrap();
    db_state
        .set_nested_setting(&s("config"), &s("app.ui.font.size"), &num(14))
        .unwrap();

    db_state
        .set_nested_setting(&s("config"), &s("app.ui.font.weight"), &txt("bold"))
        .unwrap();
    db_state
        .set_nested_setting(&s("config"), &s("app.ui.animations"), &flag(true))
        .unwrap();
    db_state
        .set_nested_setting(&s("config"), &s("app.debug.enabled"), &flag(false))
        .unwrap();

    let theme = db_state
        .get_nested_setting(&s("config"), &s("app.ui.theme"))
        .unwrap();
    let font_size = db_state
        .get_nested_setting(&s("config"), &s("app.ui.font.size"))
        .unwrap();
    let font_weight = db_state
        .get_nested_setting(&s("config"), &s("app.ui.font.weight"))
        .unwrap();
    let animations = db_state
        .get_nested_setting(&s("config"), &s("app.ui.animations"))
        .unwrap();
    let auto_save = db_state
        .get_nested_setting(&s("config"), &s("app.behavior.auto_save"))
        .unwrap();
    let debug_enabled = db_state
        .get_nested_setting(&s("config"), &s("app.debug.enabled"))
        .unwrap();

    assert!(values_equal(&theme, &txt("dark")));
    assert!(values_equal(&font_size, &num(14)));
    assert!(values_equal(&font_weight, &txt("bold")));
    assert!(values_equal(&animations, &flag(true)));
    assert!(values_equal(&auto_save, &flag(true)));
    assert!(values_equal(&debug_enabled, &flag(false)));
}

#[test]
fn test_nested_with_complex_types() {
    let mut db_state = DatabaseState::new();

    let initial_config = obj(vec![("users", obj(vec![]))]);
    db_state.set_setting(&s("system"), &initial_config);

    let user_data = obj(vec![
        ("id", num(123)),
        ("name", txt("Alice")),
        ("roles", arr(vec![txt("admin"), txt("user")])),
        (
            "settings",
            obj(vec![("theme", txt("dark")), ("notifications", flag(true))]),
        ),
    ]);

    db_state
        .set_nested_setting(&s("system"), &s("users.alice"), &user_data)
        .unwrap();

    let retrieved_user = db_state
        .get_nested_setting(&s("system"), &s("users.alice"))
        .unwrap();
    assert!(values_equal(&retrieved_user, &user_data));

    let user_name = db_state
        .get_nested_setting(&s("system"), &s("users.alice.name"))
        .unwrap();
    assert!(values_equal(&user_name, &txt("Alice")));
}

#[test]
fn test_get_nested_setting_nonexistent_key() {
    let db_state = DatabaseState::new();

    let result = db_state.get_nested_setting(&s("nonexistent"), &s("path"));
    assert!(matches!(result, Err(Error::SettingNotFound(_))));
}

#[test]
fn test_get_nested_setting_invalid_path() {
    let mut db_state = DatabaseState::new();

    let config = obj(vec![("simple_value", txt("not_an_object"))]);
    db_state.set_setting(&s("config"), &config);

    let result = db_state.get_nested_setting(&s("config"), &s("simple_value.nonexistent"));
    assert!(matches!(result, Err(Error::InvalidPath(_))));
}

#[test]
fn test_set_nested_setting_invalid_path() {
    let mut db_state = DatabaseState::new();

    let config = obj(vec![("simple_value", txt("not_an_object"))]);
    db_state.set_setting(&s("config"), &config);

    let result = db_state.set_nested_setting(&s("config"), &s("simple_value.new_prop"), &txt("value"));
    assert!(matches!(result, Err(Error::InvalidPath(_))));
}

#[test]
fn test_set_nested_on_nonexistent_base() {
    let mut db_state = DatabaseState::new();

    db_state
        .set_nested_setting(&s("new_config"), &s("app.ui.theme"), &txt("dark"))
        .unwrap();

    let theme = db_state
        .get_nested_setting(&s("new_config"), &s("app.ui.theme"))
        .unwrap();
    assert!(values_equal(&theme, &txt("dark")));
}

#[test]
fn test_delete_setting() {
    let mut db_state = DatabaseState::new();

    let config = obj(vec![("test", txt("value"))]);
    db_state.set_setting(&s("to_delete"), &config);

    let exists = db_state.get_setting(&s("to_delete"));
    assert!(exists.is_some());

    let deleted = db_state.delete_setting(&s("to_delete"));
    assert!(deleted);

    let not_exists = db_state.get_setting(&s("to_delete"));
    assert!(not_exists.is_none());
}

#[test]
fn test_delete_nonexistent_setting() {
    let mut db_state = DatabaseState::new();

    let deleted = db_state.delete_setting(&s("nonexistent"));
    assert!(!deleted);
}

#[test]
fn test_list_settings() {
    let mut db_state = DatabaseState::new();

    db_state.set_setting(&s("config_a"), &obj(vec![("type", txt("A"))]));
    db_state.set_setting(&s("config_b"), &obj(vec![("type", txt("B"))]));
    db_state.set_setting(
        &s("config_c"),
        &obj(vec![
            ("type", txt("C")),
            ("nested", obj(vec![("value", num(42))])),
        ]),
    );

    let all_settings = db_state.list_settings();

    assert_eq!(all_settings.len(), 3);
    let lookup = |key: &str| -> &JsonValue {
        all_settings
            .iter()
            .find(|(k, _)| k == key)
            .map(|(_, v)| v)
            .unwrap()
    };
    assert!(values_equal(get_field(lookup("config_a"), "type"), &txt("A")));
    assert!(values_equal(get_field(lookup("config_b"), "type"), &txt("B")));
    assert!(values_equal(get_field(lookup("config_c"), "type"), &txt("C")));
    assert!(values_equal(
        get_field(get_field(lookup("config_c"), "nested"), "value"),
        &num(42)
    ));
}

#[test]
fn test_list_empty_settings() {
    let db_state = DatabaseState::new();

    let all_settings = db_state.list_settings();
    assert!(all_settings.is_empty());
}

#[test]
fn test_large_data_handling() {
    let mut db_state = DatabaseState::new();

    let mut fields: Vec<(String, JsonValue)> = Vec::new();
    for i in 0..1000i64 {
        let entry = obj(vec![
            ("id", num(i)),
            ("data", txt(&format!("large_data_string_{}", i))),
            (
                "nested",
                obj(vec![
                    ("array", arr((0..10).map(num).collect())),
                    (
                        "object",
                        obj(vec![
                            ("prop1", txt(&format!("value_{}", i))),
                            ("prop2", num(i * 2)),
                            ("prop3", flag(i % 2 == 0)),
                        ]),
                    ),
                ]),
            ),
        ]);
        fields.push((format!("key_{}", i), entry));
    }
    let large_config = JsonValue::Object(fields);

    db_state.set_setting(&s("large_config"), &large_config);
    let retrieved = db_state.get_setting(&s("large_config")).unwrap();

    assert!(values_equal(&retrieved, &large_config));

    let nested_value = db_state
        .get_nested_setting(&s("large_config"), &s("key_500.nested.object.prop2"))
        .unwrap();
    assert!(values_equal(&nested_value, &num(1000)));
}

#[test]
fn test_complex_struct_serialization() {
    let mut db_state = DatabaseState::new();

    let user_settings = obj(vec![
        ("theme", txt("dark")),
        ("language", txt("fr")),
        ("notifications", flag(true)),
        (
            "preferences",
            obj(vec![
                ("auto_save", flag(false)),
                ("font_size", num(16)),
                ("sidebar_collapsed", flag(true)),
            ]),
        ),
    ]);

    db_state.set_setting(&s("user_settings"), &user_settings);
    let retrieved = db_state.get_setting(&s("user_settings")).unwrap();

    assert!(values_equal(&retrieved, &user_settings));
    assert!(values_equal(get_field(&retrieved, "theme"), &txt("dark")));
    assert!(values_equal(
        get_field(get_field(&retrieved, "preferences"), "font_size"),
        &num(16)
    ));
}

#[test]
fn test_empty_string_key() {
    let mut db_state = DatabaseState::new();

    let value = obj(vec![("test", txt("empty key"))]);
    db_state.set_setting(&s(""), &value);
    let retrieved = db_state.get_setting(&s("")).unwrap();
    assert!(values_equal(&retrieved, &value));
}

#[test]
fn test_special_characters_in_key() {
    let mut db_state = DatabaseState::new();

    let special_key = s("key with spaces and symbols: éàç@#$%^&*()!");
    let value = obj(vec![("special", flag(true))]);

    db_state.set_setting(&special_key, &value);
    let retrieved = db_state.get_setting(&special_key).unwrap();
    assert!(values_equal(&retrieved, &value));
}

#[test]
fn test_very_long_key() {
    let mut db_state = DatabaseState::new();

    let long_key = "a".repeat(1000);
    let value = obj(vec![("long_key_test", flag(true))]);

    db_state.set_setting(&long_key, &value);
    let retrieved = db_state.get_setting(&long_key).unwrap();
    assert!(values_equal(&retrieved, &value));
}

#[test]
fn test_null_values() {
    let mut db_state = DatabaseState::new();

    let config = obj(vec![
        ("null_value", JsonValue::Null),
        (
            "nested",
            obj(vec![
                ("also_null", JsonValue::Null),
                ("not_null", txt("value")),
            ]),
        ),
    ]);

    db_state.set_setting(&s("null_test"), &config);
    let retrieved = db_state.get_setting(&s("null_test")).unwrap();

    assert!(values_equal(&retrieved, &config));
    assert!(matches!(get_field(&retrieved, "null_value"), JsonValue::Null));
    let nested = get_field(&retrieved, "nested");
    assert!(matches!(get_field(nested, "also_null"), JsonValue::Null));
    assert!(values_equal(get_field(nested, "not_null"), &txt("value")));
}

#[test]
fn test_deeply_nested_structure() {
    let mut db_state = DatabaseState::new();

    let mut deep_config = txt("deeply nested");
    for i in (0..20).rev() {
        let label = format!("level_{}", i);
        if i == 19 {
            deep_config = JsonValue::Object(vec![(
                label,
                JsonValue::Object(vec![(s("final_value"), deep_config)]),
            )]);
        } else {
            deep_config = JsonValue::Object(vec![(label, deep_config)]);
        }
    }

    db_state.set_setting(&s("deep_config"), &deep_config);

    let path_parts: Vec<String> = (0..20).map(|i| format!("level_{}", i)).collect();
    let path = format!("{}.final_value", path_parts.join("."));

    let final_value = db_state
        .get_nested_setting(&s("deep_config"), &path)
        .unwrap();
    assert!(values_equal(&final_value, &txt("deeply nested")));
}

#[test]
fn test_typed_settings_roundtrip() {
    let mut db_state = DatabaseState::new();

    db_state.set_string_setting(&s("name"), s("argus"));
    assert_eq!(db_state.get_string_setting(&s("name")).unwrap(), Some(s("argus")));

    db_state.set_bool_setting(&s("enabled"), true);
    assert_eq!(db_state.get_bool_setting(&s("enabled")).unwrap(), Some(true));

    db_state.set_number_setting(&s("count"), -7);
    assert_eq!(db_state.get_number_setting(&s("count")).unwrap(), Some(-7));

    assert_eq!(db_state.get_string_setting(&s("missing")).unwrap(), None);
    assert_eq!(db_state.get_bool_setting(&s("missing")).unwrap(), None);
    assert_eq!(db_state.get_number_setting(&s("missing")).unwrap(), None);
}

#[test]
fn test_typed_settings_mismatch() {
    let mut db_state = DatabaseState::new();

    db_state.set_bool_setting(&s("enabled"), true);
    let result = db_state.get_string_setting(&s("enabled"));
    assert!(matches!(result, Err(Error::JsonSerialization(_))));

    db_state.set_string_setting(&s("name"), s("argus"));
    assert!(matches!(
        db_state.get_bool_setting(&s("name")),
        Err(Error::JsonSerialization(_))
    ));
    assert!(matches!(
        db_state.get_number_setting(&s("name")),
        Err(Error::JsonSerialization(_))
    ));
}

#[test]
fn test_exists_count_clear() {
    let mut db_state = DatabaseState::new();

    assert!(!db_state.setting_exists(&s("a")));
    assert_eq!(db_state.count_settings(), 0);

    db_state.set_setting(&s("a"), &num(1));
    db_state.set_setting(&s("b"), &num(2));
    assert!(db_state.setting_exists(&s("a")));
    assert_eq!(db_state.count_settings(), 2);

    let with_default = db_state.get_setting_with_default(&s("c"), num(9));
    assert!(values_equal(&with_default, &num(9)));

    let cleared = db_state.clear_all_settings();
    assert_eq!(cleared, 2);
    assert_eq!(db_state.count_settings(), 0);
    assert!(!db_state.setting_exists(&s("a")));
}

#[test]
fn test_split_path_segments() {
    let parts = split_path(&s("a.b.c"));
    assert_eq!(parts, vec![s("a"), s("b"), s("c")]);

    let single = split_path(&s("alone"));
    assert_eq!(single, vec![s("alone")]);

    let empty = split_path(&s(""));
    assert_eq!(empty, vec![s("")]);

    let doubled = split_path(&s("a..b"));
    assert_eq!(doubled, vec![s("a"), s(""), s("b")]);
}

#[test]
fn test_values_equal_distinguishes() {
    assert!(values_equal(&JsonValue::Null, &JsonValue::Null));
    assert!(!values_equal(&JsonValue::Null, &flag(false)));
    assert!(!values_equal(&num(1), &num(2)));
    assert!(!values_equal(&txt("a"), &txt("b")));
    assert!(!values_equal(
        &arr(vec![num(1)]),
        &arr(vec![num(1), num(2)])
    ));
    assert!(!values_equal(
        &obj(vec![("k", num(1))]),
        &obj(vec![("k", num(2))])
    ));
    assert!(values_equal(
        &obj(vec![("k", arr(vec![txt("x")]))]),
        &obj(vec![("k", arr(vec![txt("x")]))])
    ));
}
