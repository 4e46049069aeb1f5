use std::collections::BTreeMap;

use wooting_host_profile::config::{
    cache_profile_names, default_command_delay_ms, default_config, default_enforce_interval_ms,
    default_true, set_automatic_switching, set_enforcement, set_status_icon, update_config,
    validate_profile_name, ConfigChange, ConfigError, HostOs, NameError,
};

#[test]
fn rejects_unsafe_configuration_values() {
    let mut config = default_config();
    config.command_delay_ms = 0;
    assert!(config.validate().is_err());

    config = default_config();
    config.enforce_interval_ms = 100;
    assert!(config.validate().is_err());

    config = default_config();
    config.profile_names.insert(5, "Out of range".to_owned());
    assert!(config.validate().is_err());

    config = default_config();
    config.profile_names.insert(1, "Bad\nName".to_owned());
    assert!(config.validate().is_err());
}

#[test]
fn scoped_config_updates_preserve_other_settings() {
    // A missing configuration file loads as the default configuration.
    let stored = default_config();
    let first = update_config(stored, ConfigChange::SetEnabled(false)).unwrap();
    assert!(!first.enabled);

    let second = update_config(first.clone(), ConfigChange::SetEnforce(true)).unwrap();
    assert!(!second.enabled);
    assert!(second.enforce);
    assert!(second.validate().is_ok());
}

#[test]
fn defaults_match_the_documented_values() {
    assert!(default_true());
    assert_eq!(default_command_delay_ms(), 250);
    assert_eq!(default_enforce_interval_ms(), 5_000);
    let config = default_config();
    assert!(config.enabled && config.show_status_icon && config.refresh_lighting);
    assert!(!config.enforce);
    assert_eq!(config.profiles.windows, None);
    assert_eq!(config.profiles.macos, None);
    assert!(config.profile_names.is_empty());
    assert!(config.validate().is_ok());
}

#[test]
fn reports_each_configuration_error() {
    let mut config = default_config();
    config.profiles.windows = Some(0);
    config.profiles.macos = Some(9);
    assert_eq!(config.validate(), Err(ConfigError::InvalidWindowsProfile(0)));
    config.profiles.windows = Some(1);
    assert_eq!(config.validate(), Err(ConfigError::InvalidMacosProfile(9)));
    config.profiles.macos = Some(4);
    config.command_delay_ms = 5_001;
    assert_eq!(config.validate(), Err(ConfigError::CommandDelayOutOfRange(5_001)));
    config.command_delay_ms = 10;
    config.enforce_interval_ms = 3_600_001;
    assert_eq!(config.validate(), Err(ConfigError::EnforceIntervalOutOfRange(3_600_001)));
    config.enforce_interval_ms = 3_600_000;
    assert!(config.validate().is_ok());
    config.profile_names.insert(2, String::new());
    config.profile_names.insert(0, "Zero".to_owned());
    assert_eq!(config.validate(), Err(ConfigError::InvalidCachedIndex(0)));
    config.profile_names.remove(&0);
    assert_eq!(config.validate(), Err(ConfigError::InvalidCachedName(NameError::Empty)));
}

#[test]
fn validates_profile_names() {
    assert_eq!(validate_profile_name(""), Err(NameError::Empty));
    assert_eq!(validate_profile_name(&"x".repeat(257)), Err(NameError::TooLong));
    assert!(validate_profile_name(&"x".repeat(256)).is_ok());
    // 129 two-byte characters are 258 UTF-8 bytes.
    assert_eq!(validate_profile_name(&"é".repeat(129)), Err(NameError::TooLong));
    assert_eq!(validate_profile_name("Tab\there"), Err(NameError::ControlCharacter));
    assert_eq!(validate_profile_name("C1\u{85}"), Err(NameError::ControlCharacter));
    assert!(validate_profile_name("mac profile").is_ok());
}

#[test]
fn configured_profile_is_zero_based_per_system() {
    let mut config = default_config();
    assert_eq!(config.configured_profile(HostOs::Windows), Err(ConfigError::NoProfileLearned));
    assert_eq!(config.configured_profile(HostOs::Other), Err(ConfigError::UnsupportedOs));
    config.learn_for_current_os(HostOs::Windows, 2).unwrap();
    config.learn_for_current_os(HostOs::MacOs, 1).unwrap();
    assert_eq!(config.configured_profile(HostOs::Windows), Ok(1));
    assert_eq!(config.configured_profile(HostOs::MacOs), Ok(0));
    assert_eq!(config.learn_for_current_os(HostOs::Windows, 5), Err(ConfigError::ProfileOutOfRange(5)));
    assert_eq!(config.learn_for_current_os(HostOs::Other, 3), Err(ConfigError::UnsupportedOs));
    assert_eq!(config.profiles.windows, Some(2));
}

#[test]
fn learning_through_an_update_is_validated() {
    let config = default_config();
    assert_eq!(
        update_config(config.clone(), ConfigChange::Learn(HostOs::MacOs, 0)).err(),
        Some(ConfigError::ProfileOutOfRange(0))
    );
    let learned = update_config(config, ConfigChange::Learn(HostOs::MacOs, 3)).unwrap();
    assert_eq!(learned.profiles.macos, Some(3));
    assert_eq!(learned.profiles.windows, None);
}

#[test]
fn invalid_names_are_not_written_back() {
    let mut names = BTreeMap::new();
    names.insert(1, "ok".to_owned());
    names.insert(2, "bad\u{7}".to_owned());
    let result = update_config(default_config(), ConfigChange::SetProfileNames(names));
    assert_eq!(result.err(), Some(ConfigError::InvalidCachedName(NameError::ControlCharacter)));
}

#[test]
fn toggles_change_only_their_setting() {
    let config = set_enforcement(default_config(), true).unwrap();
    assert!(config.enforce && config.enabled && config.show_status_icon);
    let config = set_status_icon(config, false).unwrap();
    assert!(!config.show_status_icon && config.enforce);
}

#[test]
fn enabling_automatic_switching_applies_the_learned_profile() {
    let mut config = default_config();
    config.enabled = false;
    config.profiles.windows = Some(2);
    let plan = set_automatic_switching(config.clone(), HostOs::Windows, true).unwrap();
    assert!(plan.config.enabled);
    assert_eq!(plan.apply_profile, Some(2));
    assert!(plan.start_watcher);
    let plan = set_automatic_switching(config.clone(), HostOs::MacOs, true).unwrap();
    assert_eq!(plan.apply_profile, None);
    assert!(plan.start_watcher);
    let plan = set_automatic_switching(config, HostOs::Windows, false).unwrap();
    assert!(!plan.config.enabled);
    assert_eq!(plan.apply_profile, None);
    assert!(!plan.start_watcher);
}

#[test]
fn caching_names_keeps_the_last_duplicate() {
    let mut config = default_config();
    config.enforce = true;
    cache_profile_names(
        &mut config,
        &[(2, "Game".to_owned()), (1, "Typing".to_owned()), (2, "Game 2".to_owned())],
    );
    assert_eq!(config.profile_names.len(), 2);
    assert_eq!(config.profile_names.get(&1).map(String::as_str), Some("Typing"));
    assert_eq!(config.profile_names.get(&2).map(String::as_str), Some("Game 2"));
    assert!(config.enforce);
}
