use env_swap::config::{
    load_failure_text, merge_configs, Config, ConfigError, EnvValue, EnvVar, FILE_NAME,
};
use env_swap::i18n::{I18nMessages, Messages};

fn var(values: &[(&str, &str)]) -> EnvVar {
    EnvVar {
        values: values
            .iter()
            .map(|(label, value)| EnvValue { label: label.to_string(), value: value.to_string() })
            .collect(),
    }
}

fn config(entries: &[(&str, &[(&str, &str)])]) -> Config {
    let mut config = Config::new();
    for (name, values) in entries {
        assert!(config.insert(name.to_string(), var(values)));
    }
    config
}

fn labels(config: &Config, name: &str) -> Vec<String> {
    config.get(name).unwrap().values.iter().map(|v| v.label.clone()).collect()
}

#[test]
fn configuration_file_name() {
    assert_eq!(FILE_NAME, ".env.swap.toml");
    assert!(ConfigError::NotFound.message().contains(FILE_NAME));
}

#[test]
fn new_config_is_empty() {
    let config = Config::new();
    assert!(config.is_empty());
    assert_eq!(config.len(), 0);
    assert!(config.keys().is_empty());
    assert!(config.get("API_KEY").is_none());
    assert!(!config.contains_key("API_KEY"));
}

#[test]
fn insert_stores_a_variable_with_its_values() {
    let mut config = Config::new();
    assert!(config.insert("API_KEY".to_string(), var(&[("Dev", "dev-key")])));
    assert!(!config.is_empty());
    assert_eq!(config.len(), 1);
    assert!(config.contains_key("API_KEY"));
    assert!(!config.contains_key("api_key"));
    let stored = config.get("API_KEY").unwrap();
    assert_eq!(stored.values.len(), 1);
    assert_eq!(stored.values[0].label, "Dev");
    assert_eq!(stored.values[0].value, "dev-key");
}

#[test]
fn insert_replaces_the_values_of_a_known_variable() {
    let mut config =
        config(&[("API_KEY", &[("Dev", "dev-key")]), ("DB_HOST", &[("Local", "::1")])]);
    assert!(config.insert("API_KEY".to_string(), var(&[("Prod", "prod-key"), ("Test", "t")])));
    assert_eq!(config.len(), 2);
    assert_eq!(labels(&config, "API_KEY"), vec!["Prod", "Test"]);
    assert_eq!(labels(&config, "DB_HOST"), vec!["Local"]);
}

#[test]
fn insert_refuses_a_variable_without_values() {
    let mut config = config(&[("API_KEY", &[("Dev", "dev-key")])]);
    assert!(!config.insert("EMPTY".to_string(), var(&[])));
    assert!(!config.contains_key("EMPTY"));
    assert!(!config.insert("API_KEY".to_string(), var(&[])));
    assert_eq!(labels(&config, "API_KEY"), vec!["Dev"]);
    assert_eq!(config.len(), 1);
}

#[test]
fn keys_holds_each_name_once() {
    let config = config(&[
        ("DB_HOST", &[("Local", "::1")]),
        ("API_KEY", &[("Dev", "dev-key")]),
        ("REGION", &[("EU", "eu-1")]),
    ]);
    let mut keys = config.keys();
    keys.sort();
    assert_eq!(keys, vec!["API_KEY", "DB_HOST", "REGION"]);
}

#[test]
fn clone_copies_labels_and_values() {
    let offered = var(&[("Dev", "dev-key"), ("Prod", "prod-key")]);
    let copy = offered.clone();
    assert_eq!(copy.values.len(), 2);
    assert_eq!(copy.values[0].label, "Dev");
    assert_eq!(copy.values[0].value, "dev-key");
    assert_eq!(copy.values[1].label, "Prod");
    assert_eq!(copy.values[1].value, "prod-key");
    let value = copy.values[1].clone();
    assert_eq!(value.label, "Prod");
    assert_eq!(value.value, "prod-key");
}

#[test]
fn merge_without_any_file_is_not_found() {
    let result = merge_configs(None, None);
    assert!(result.is_err());
    let error = result.unwrap_err();
    assert!(matches!(error, ConfigError::NotFound));
    assert_eq!(
        error.message(),
        "No .env.swap.toml file found in current or home directory."
    );
}

#[test]
fn merge_with_only_the_work_dir() {
    let work = config(&[("API_KEY", &[("Dev", "dev-key")])]);
    let config = merge_configs(Some(work), None).unwrap();
    assert!(config.contains_key("API_KEY"));
    assert_eq!(config.get("API_KEY").unwrap().values.len(), 1);
    assert_eq!(config.get("API_KEY").unwrap().values[0].label, "Dev");
}

#[test]
fn merge_with_only_the_home_dir() {
    let home = config(&[("DB_HOST", &[("Home DB", "db.home")])]);
    let config = merge_configs(None, Some(home)).unwrap();
    assert_eq!(config.len(), 1);
    assert_eq!(labels(&config, "DB_HOST"), vec!["Home DB"]);
}

#[test]
fn merge_puts_work_values_first() {
    let home = config(&[
        ("API_KEY", &[("Home", "home-key")]),
        ("DB_HOST", &[("Home DB", "db.home")]),
    ]);
    let work = config(&[("API_KEY", &[("Work", "work-key")])]);

    let config = merge_configs(Some(work), Some(home)).unwrap();

    // API_KEY should have two values, work's coming first
    assert_eq!(config.get("API_KEY").unwrap().values.len(), 2);
    assert_eq!(config.get("API_KEY").unwrap().values[0].label, "Work");
    assert_eq!(config.get("API_KEY").unwrap().values[1].label, "Home");
    assert_eq!(config.get("API_KEY").unwrap().values[0].value, "work-key");
    assert_eq!(config.get("API_KEY").unwrap().values[1].value, "home-key");

    // DB_HOST should exist from home config
    assert!(config.contains_key("DB_HOST"));
    assert_eq!(config.get("DB_HOST").unwrap().values.len(), 1);
    assert_eq!(config.len(), 2);
}

#[test]
fn merge_keeps_the_order_of_each_source() {
    let work = config(&[("A", &[("w1", "1"), ("w2", "2")]), ("B", &[("wb", "b")])]);
    let home = config(&[("A", &[("h1", "3"), ("h2", "4")]), ("C", &[("hc", "c")])]);
    let merged = merge_configs(Some(work), Some(home)).unwrap();
    assert_eq!(labels(&merged, "A"), vec!["w1", "w2", "h1", "h2"]);
    assert_eq!(labels(&merged, "B"), vec!["wb"]);
    assert_eq!(labels(&merged, "C"), vec!["hc"]);
    assert_eq!(merged.len(), 3);
}

#[test]
fn merge_with_an_empty_side_changes_nothing() {
    let work = config(&[("A", &[("w1", "1")])]);
    let merged = merge_configs(Some(work), Some(Config::new())).unwrap();
    assert_eq!(merged.len(), 1);
    assert_eq!(labels(&merged, "A"), vec!["w1"]);
    let home = config(&[("A", &[("h1", "1")])]);
    let merged = merge_configs(Some(Config::new()), Some(home)).unwrap();
    assert_eq!(merged.len(), 1);
    assert_eq!(labels(&merged, "A"), vec!["h1"]);
}

#[test]
fn failed_error_carries_its_reason() {
    let error = ConfigError::Failed("Failed to parse TOML at \"x\": oops".to_string());
    assert_eq!(error.message(), "Failed to parse TOML at \"x\": oops");
}

#[test]
fn failure_text_is_localized_when_nothing_was_found() {
    let mut messages = Messages::new();
    messages.insert("config_not_found".to_string(), "Nothing to choose from.".to_string());
    let i18n = I18nMessages::new(messages);
    assert_eq!(load_failure_text(&ConfigError::NotFound, &i18n), "Nothing to choose from.");
    let bare = I18nMessages::new(Messages::new());
    assert_eq!(load_failure_text(&ConfigError::NotFound, &bare), "config_not_found");
}

#[test]
fn failure_text_names_the_reason_otherwise() {
    let i18n = I18nMessages::new(Messages::new());
    let error = ConfigError::Failed("bad file".to_string());
    assert_eq!(load_failure_text(&error, &i18n), "Error loading config: bad file");
}
