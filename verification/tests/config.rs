use watchbind::config::{Config, ConfigError, TomlConfig, DEFAULT_INTERVAL_MS};
use watchbind::keybindings::{get_bound, Key, Operation, ParseError};

fn empty_toml() -> TomlConfig {
    TomlConfig {
        watched_command: None,
        interval_ms: None,
        header_lines: None,
        initial_env_variables: None,
        keybindings: None,
    }
}

#[test]
fn config_defaults_apply() {
    let cli = TomlConfig {
        watched_command: Some("ls -l".to_string()),
        ..empty_toml()
    };
    let config = Config::parse(cli, None).unwrap();
    assert_eq!(config.watched_command, "ls -l");
    assert_eq!(config.watch_rate_ms, DEFAULT_INTERVAL_MS);
    assert_eq!(config.header_lines, 0);
    assert!(config.initial_env_variables.is_empty());
    // the built-in bindings are present
    assert_eq!(
        *get_bound(&config.keybindings, Key::Char('q')).unwrap(),
        vec![Operation::Exit]
    );
    assert_eq!(
        *get_bound(&config.keybindings, Key::Char('r')).unwrap(),
        vec![Operation::Reload]
    );
}

#[test]
fn config_without_a_command_is_rejected() {
    assert_eq!(
        Config::parse(empty_toml(), None).unwrap_err(),
        ConfigError::MissingCommand
    );
    // even with a file, some source must name a command
    assert_eq!(
        Config::parse(empty_toml(), Some(empty_toml())).unwrap_err(),
        ConfigError::MissingCommand
    );
}

#[test]
fn flags_take_precedence_over_file_over_defaults() {
    let cli = TomlConfig {
        interval_ms: Some(1000),
        ..empty_toml()
    };
    let file = TomlConfig {
        watched_command: Some("top -b".to_string()),
        interval_ms: Some(9000),
        header_lines: Some(2),
        ..empty_toml()
    };
    let config = Config::parse(cli, Some(file)).unwrap();
    assert_eq!(config.watched_command, "top -b");
    assert_eq!(config.watch_rate_ms, 1000);
    assert_eq!(config.header_lines, 2);
}

#[test]
fn user_bindings_override_builtin_ones_per_key() {
    let cli = TomlConfig {
        watched_command: Some("ls".to_string()),
        keybindings: Some(vec![("q".to_string(), vec!["reload".to_string()])]),
        ..empty_toml()
    };
    let config = Config::parse(cli, None).unwrap();
    // "q" is rebound
    assert_eq!(
        *get_bound(&config.keybindings, Key::Char('q')).unwrap(),
        vec![Operation::Reload]
    );
    // other built-in bindings survive
    assert_eq!(
        *get_bound(&config.keybindings, Key::Esc).unwrap().first().unwrap(),
        Operation::from_str("unselect-all").unwrap()
    );
}

#[test]
fn flag_bindings_override_file_bindings_per_key() {
    let cli = TomlConfig {
        watched_command: Some("ls".to_string()),
        keybindings: Some(vec![("x".to_string(), vec!["exit".to_string()])]),
        ..empty_toml()
    };
    let file = TomlConfig {
        keybindings: Some(vec![
            ("x".to_string(), vec!["reload".to_string()]),
            ("y".to_string(), vec!["first".to_string()]),
        ]),
        ..empty_toml()
    };
    let config = Config::parse(cli, Some(file)).unwrap();
    assert_eq!(
        *get_bound(&config.keybindings, Key::Char('x')).unwrap(),
        vec![Operation::Exit]
    );
    assert_eq!(
        *get_bound(&config.keybindings, Key::Char('y')).unwrap(),
        vec![Operation::from_str("first").unwrap()]
    );
}

#[test]
fn a_bad_binding_is_fatal_at_configuration_time() {
    let cli = TomlConfig {
        watched_command: Some("ls".to_string()),
        keybindings: Some(vec![("notakey".to_string(), vec!["exit".to_string()])]),
        ..empty_toml()
    };
    assert_eq!(
        Config::parse(cli, None).unwrap_err(),
        ConfigError::Keybinding(ParseError::UnknownKey {
            key: "notakey".to_string(),
        })
    );

    let cli = TomlConfig {
        watched_command: Some("ls".to_string()),
        keybindings: Some(vec![("q".to_string(), vec!["up what".to_string()])]),
        ..empty_toml()
    };
    assert_eq!(
        Config::parse(cli, None).unwrap_err(),
        ConfigError::Keybinding(ParseError::MalformedOperation {
            token: "what".to_string(),
            src: "up what".to_string(),
        })
    );
}

#[test]
fn env_variable_names_are_carried_through() {
    let cli = TomlConfig {
        watched_command: Some("ls".to_string()),
        initial_env_variables: Some(vec!["HOME".to_string(), "USER".to_string()]),
        ..empty_toml()
    };
    let config = Config::parse(cli, None).unwrap();
    assert_eq!(
        config.initial_env_variables,
        vec!["HOME".to_string(), "USER".to_string()]
    );
}
