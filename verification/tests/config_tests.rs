use sling::active_config::ActiveConfig;
use sling::config::Config;
use sling::runtime_config::RuntimeConfig;

#[test]
fn test_as_runtime_config() {
    let config = Config {
        default_bucket_name: Some("abc".to_string()),
        default_pip_args: None,
        default_python_interpreter: None,
    };
    assert_eq!(
        config.as_runtime_config(),
        RuntimeConfig {
            bucket: Some("abc".to_string()),
            pip_args: None,
            python: None,
        }
    );
}

#[test]
fn test_load_missing_file_gives_empty_config() {
    let config = Config::load(None);
    assert_eq!(config.default_bucket_name, None);
    assert_eq!(config.default_pip_args, None);
    assert_eq!(config.default_python_interpreter, None);
}

#[test]
fn test_load_present_file_gives_stored_config() {
    let stored = Config {
        default_bucket_name: Some("b".to_string()),
        default_pip_args: Some("-q".to_string()),
        default_python_interpreter: None,
    };
    let config = Config::load(Some(stored.clone()));
    assert!(config == stored);
}

#[test]
fn test_resolve_prefers_supplied_then_stored_then_defaults() {
    let supplied = RuntimeConfig {
        bucket: Some("cli".to_string()),
        pip_args: None,
        python: None,
    };
    let stored = RuntimeConfig {
        bucket: Some("file".to_string()),
        pip_args: Some("-v".to_string()),
        python: None,
    };
    let defaults = RuntimeConfig {
        bucket: Some("builtin".to_string()),
        pip_args: Some("-d".to_string()),
        python: Some("python".to_string()),
    };
    let resolved = RuntimeConfig::resolve(supplied, stored, defaults);
    assert_eq!(resolved.bucket, Some("cli".to_string()));
    assert_eq!(resolved.pip_args, Some("-v".to_string()));
    assert_eq!(resolved.python, Some("python".to_string()));
}

#[test]
fn test_default_runtime_config_is_unset() {
    let d = RuntimeConfig::default();
    assert_eq!(d.bucket, None);
    assert_eq!(d.pip_args, None);
    assert_eq!(d.python, None);
}

#[test]
fn test_active_config_starts_clean() {
    let active = ActiveConfig::from(Config::load(None));
    assert!(active.save().is_none());
}

#[test]
fn test_mutate_that_changes_marks_dirty_and_saves() {
    let mut active = ActiveConfig::from(Config::load(None));
    let dirty = active.mutate(|c| {
        let mut next = c.clone();
        next.default_bucket_name = Some("abc".to_string());
        next
    });
    assert!(dirty);
    let saved = active.save().expect("a changed config must be saved");
    assert_eq!(saved.default_bucket_name, Some("abc".to_string()));
    assert_eq!(active.get().default_bucket_name, Some("abc".to_string()));
}

#[test]
fn test_mutate_that_keeps_value_stays_clean() {
    let mut active = ActiveConfig::from(Config::load(None));
    let dirty = active.mutate(|c| c.clone());
    assert!(!dirty);
    assert!(active.save().is_none());
}

#[test]
fn test_dirty_flag_is_sticky_across_edits() {
    let mut active = ActiveConfig::from(Config::load(None));
    active.mutate(|c| {
        let mut next = c.clone();
        next.default_pip_args = Some("-q".to_string());
        next
    });
    let still_dirty = active.mutate(|c| c.clone());
    assert!(still_dirty);
    assert!(active.save().is_some());
}
