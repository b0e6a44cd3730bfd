use std::collections::HashMap;

use env_swap::i18n::{
    load_messages, locale_prefers_japanese, messages_for_locale, I18nMessages, Messages,
};

const MESSAGES_JSON: &str = r#"{
  "en": {
    "select_variable": "Select an environment variable",
    "select_value": "Select a value",
    "key_hint_variable_selection": "Up/Down: move  Enter: select  q/Esc: quit",
    "key_hint_value_selection": "Up/Down: move  Enter: confirm  Esc: back  q: quit",
    "config_not_found": "No configuration file found. Run `edit` to create one.",
    "file_creation_failed": "Failed to create the file at {path}"
  },
  "ja": {
    "select_variable": "環境変数を選択してください",
    "select_value": "値を選択してください",
    "key_hint_variable_selection": "上下: 移動  Enter: 選択  q/Esc: 終了",
    "key_hint_value_selection": "上下: 移動  Enter: 決定  Esc: 戻る  q: 終了",
    "config_not_found": "設定ファイルが見つかりません。`edit` で作成してください。",
    "file_creation_failed": "{path} にファイルを作成できませんでした"
  }
}"#;

fn language(parsed: &HashMap<String, HashMap<String, String>>, code: &str) -> Messages {
    let mut messages = Messages::new();
    for (key, text) in &parsed[code] {
        messages.insert(key.clone(), text.clone());
    }
    messages
}

fn sample(pairs: &[(&str, &str)]) -> Messages {
    let mut messages = Messages::new();
    for (key, text) in pairs {
        messages.insert(key.to_string(), text.to_string());
    }
    messages
}

#[test]
fn test_load_messages_parses_correctly() {
    // This test ensures that the embedded JSON is valid and can be parsed.
    // It doesn't test the locale detection itself, as that's an external dependency.
    let parsed: Result<HashMap<String, HashMap<String, String>>, _> =
        serde_json::from_str(MESSAGES_JSON);
    assert!(parsed.is_ok());
    let parsed = parsed.unwrap();
    let messages = load_messages(language(&parsed, "en"), language(&parsed, "ja"));
    let title = messages.get("select_variable");
    assert!(title == "Select an environment variable" || title == "環境変数を選択してください");
}

#[test]
fn test_i18n_messages_get() {
    let mut messages = Messages::new();
    messages.insert("hello".to_string(), "world".to_string());
    let i18n_messages = I18nMessages::new(messages);

    // Test getting an existing key
    assert_eq!(i18n_messages.get("hello"), "world");

    // Test getting a non-existent key (should return the key itself)
    assert_eq!(i18n_messages.get("goodbye"), "goodbye");
}

#[test]
fn test_embedded_json_structure() {
    // Directly test the parsing of the embedded JSON string to ensure
    // both `en` and `ja` keys exist and contain the expected messages.
    let parsed: HashMap<String, HashMap<String, String>> =
        serde_json::from_str(MESSAGES_JSON).unwrap();
    let en = language(&parsed, "en");
    let ja = language(&parsed, "ja");

    assert_eq!(
        en.get("select_variable"),
        Some(&"Select an environment variable".to_string())
    );
    assert_eq!(
        ja.get("select_variable"),
        Some(&"環境変数を選択してください".to_string())
    );
}

#[test]
fn messages_start_empty() {
    let messages = Messages::new();
    assert_eq!(messages.get("hello"), None);
    assert_eq!(messages.get(""), None);
}

#[test]
fn insert_replaces_and_returns_the_previous_message() {
    let mut messages = Messages::new();
    assert_eq!(messages.insert("hello".to_string(), "world".to_string()), None);
    assert_eq!(messages.insert("bye".to_string(), "moon".to_string()), None);
    assert_eq!(
        messages.insert("hello".to_string(), "there".to_string()),
        Some("world".to_string())
    );
    assert_eq!(messages.get("hello"), Some(&"there".to_string()));
    assert_eq!(messages.get("bye"), Some(&"moon".to_string()));
}

#[test]
fn keys_are_told_apart_exactly() {
    let messages = sample(&[("hello", "world"), ("hello ", "space"), ("Hello", "capital")]);
    let i18n = I18nMessages::new(messages);
    assert_eq!(i18n.get("hello"), "world");
    assert_eq!(i18n.get("hello "), "space");
    assert_eq!(i18n.get("Hello"), "capital");
    assert_eq!(i18n.get("hell"), "hell");
    assert_eq!(i18n.get("helloo"), "helloo");
}

#[test]
fn missing_message_falls_back_to_the_empty_key() {
    let i18n = I18nMessages::new(Messages::new());
    assert_eq!(i18n.get(""), "");
}

#[test]
fn locale_tags_that_begin_with_ja_prefer_japanese() {
    assert!(locale_prefers_japanese("ja"));
    assert!(locale_prefers_japanese("ja-JP"));
    assert!(locale_prefers_japanese("japanese"));
    assert!(!locale_prefers_japanese("en-US"));
    assert!(!locale_prefers_japanese("j"));
    assert!(!locale_prefers_japanese(""));
    assert!(!locale_prefers_japanese("Ja"));
    assert!(!locale_prefers_japanese("aj"));
    assert!(!locale_prefers_japanese("日本語"));
}

#[test]
fn messages_for_locale_picks_by_tag() {
    let en = || sample(&[("greeting", "hello")]);
    let ja = || sample(&[("greeting", "こんにちは")]);
    assert_eq!(messages_for_locale(Some("ja-JP"), en(), ja()).get("greeting"), "こんにちは");
    assert_eq!(messages_for_locale(Some("en-US"), en(), ja()).get("greeting"), "hello");
    assert_eq!(messages_for_locale(Some("fr"), en(), ja()).get("greeting"), "hello");
    assert_eq!(messages_for_locale(None, en(), ja()).get("greeting"), "hello");
}

#[test]
fn load_messages_takes_one_of_the_two_languages() {
    let en = sample(&[("greeting", "hello")]);
    let ja = sample(&[("greeting", "こんにちは")]);
    let loaded = load_messages(en, ja);
    let greeting = loaded.get("greeting");
    assert!(greeting == "hello" || greeting == "こんにちは");
}
