//! Resolving the configuration: the partial configurations read from the
//! command line and from a file are merged field by field, flags over file
//! over built-in defaults, and the merged keybinding lines are parsed into
//! the table. Reading flags and files is the caller's business; this module
//! works on their plain values.

use crate::keybindings::{
    default_raw, parse_raw, spec_default_raw, spec_parse_raw, Key, Keybindings, KeybindingsRaw,
    merge_raw, OpView, ParseError, ParseErrorView,
};
use vstd::prelude::*;

verus! {

/// The built-in refresh interval, in milliseconds.
pub const DEFAULT_INTERVAL_MS: u64 = 5000;

/// A partial configuration as one source provides it; a `None` field defers
/// to the next source in precedence order.
pub struct TomlConfig {
    pub watched_command: Option<String>,
    pub interval_ms: Option<u64>,
    pub header_lines: Option<usize>,
    pub initial_env_variables: Option<Vec<String>>,
    pub keybindings: Option<KeybindingsRaw>,
}

/// Mathematical value of a `TomlConfig`.
pub ghost struct TomlConfigView {
    pub watched_command: Option<Seq<char>>,
    pub interval_ms: Option<u64>,
    pub header_lines: Option<usize>,
    pub initial_env_variables: Option<Seq<Seq<char>>>,
    pub keybindings: Option<Seq<(Seq<char>, Seq<Seq<char>>)>>,
}

impl View for TomlConfig {
    type V = TomlConfigView;

    open spec fn view(&self) -> TomlConfigView {
        TomlConfigView {
            watched_command: self.watched_command.deep_view(),
            interval_ms: self.interval_ms,
            header_lines: self.header_lines,
            initial_env_variables: self.initial_env_variables.deep_view(),
            keybindings: self.keybindings.deep_view(),
        }
    }
}

impl DeepView for TomlConfig {
    type V = TomlConfigView;

    open spec fn deep_view(&self) -> TomlConfigView {
        self@
    }
}

/// Field-by-field precedence: `a` wins wherever it has a value. Keybindings
/// merge entry by entry instead, `a`'s entries after (hence over) `b`'s.
pub open spec fn spec_merge(a: TomlConfigView, b: TomlConfigView) -> TomlConfigView {
    TomlConfigView {
        watched_command: if a.watched_command is Some {
            a.watched_command
        } else {
            b.watched_command
        },
        interval_ms: if a.interval_ms is Some {
            a.interval_ms
        } else {
            b.interval_ms
        },
        header_lines: if a.header_lines is Some {
            a.header_lines
        } else {
            b.header_lines
        },
        initial_env_variables: if a.initial_env_variables is Some {
            a.initial_env_variables
        } else {
            b.initial_env_variables
        },
        keybindings: match (a.keybindings, b.keybindings) {
            (Some(n), Some(o)) => Some(o + n),
            (Some(n), None) => Some(n),
            (None, o) => o,
        },
    }
}

/// The built-in defaults: a five-second interval and the built-in bindings.
pub open spec fn spec_default_config() -> TomlConfigView {
    TomlConfigView {
        watched_command: None,
        interval_ms: Some(DEFAULT_INTERVAL_MS),
        header_lines: None,
        initial_env_variables: None,
        keybindings: Some(spec_default_raw()),
    }
}

impl TomlConfig {
    /// Merges two partial configurations; `self` is favored.
    pub fn merge(self, other: Self) -> (r: Self)
        ensures
            r@ == spec_merge(self@, other@),
    {
        TomlConfig {
            watched_command: match self.watched_command {
                Some(c) => Some(c),
                None => other.watched_command,
            },
            interval_ms: match self.interval_ms {
                Some(i) => Some(i),
                None => other.interval_ms,
            },
            header_lines: match self.header_lines {
                Some(h) => Some(h),
                None => other.header_lines,
            },
            initial_env_variables: match self.initial_env_variables {
                Some(e) => Some(e),
                None => other.initial_env_variables,
            },
            keybindings: match (self.keybindings, other.keybindings) {
                (Some(n), Some(o)) => Some(merge_raw(n, o)),
                (Some(n), None) => Some(n),
                (None, o) => o,
            },
        }
    }
}

impl Default for TomlConfig {
    /// The built-in defaults, as the weakest source in the merge order.
    fn default() -> (d: Self)
        ensures
            d@ == spec_default_config(),
    {
        TomlConfig {
            watched_command: None,
            interval_ms: Some(DEFAULT_INTERVAL_MS),
            header_lines: None,
            initial_env_variables: None,
            keybindings: Some(default_raw()),
        }
    }
}

/// A reason the process must not start.
#[derive(Debug, PartialEq, Eq)]
pub enum ConfigError {
    /// No command to watch was provided by any source.
    MissingCommand,
    /// A keybinding line did not parse.
    Keybinding(ParseError),
}

/// Mathematical value of a `ConfigError`.
pub ghost enum ConfigErrorView {
    MissingCommand,
    Keybinding(ParseErrorView),
}

impl View for ConfigError {
    type V = ConfigErrorView;

    open spec fn view(&self) -> ConfigErrorView {
        match self {
            ConfigError::MissingCommand => ConfigErrorView::MissingCommand,
            ConfigError::Keybinding(e) => ConfigErrorView::Keybinding(e@),
        }
    }
}

/// The resolved configuration the session runs on.
#[derive(Debug)]
pub struct Config {
    pub watched_command: String,
    pub watch_rate_ms: u64,
    pub header_lines: usize,
    pub initial_env_variables: Vec<String>,
    pub keybindings: Keybindings,
}

/// Mathematical value of a `Config`.
pub ghost struct ConfigView {
    pub watched_command: Seq<char>,
    pub watch_rate_ms: u64,
    pub header_lines: usize,
    pub initial_env_variables: Seq<Seq<char>>,
    pub keybindings: Seq<(Key, Seq<OpView>)>,
}

impl View for Config {
    type V = ConfigView;

    open spec fn view(&self) -> ConfigView {
        ConfigView {
            watched_command: self.watched_command@,
            watch_rate_ms: self.watch_rate_ms,
            header_lines: self.header_lines,
            initial_env_variables: self.initial_env_variables.deep_view(),
            keybindings: self.keybindings.deep_view(),
        }
    }
}

/// The resolved configuration of two partial ones: flags over file over
/// defaults; fails exactly when no source names a command, or when a merged
/// keybinding entry does not parse.
pub open spec fn spec_config_parse(cli: TomlConfigView, file: Option<TomlConfigView>) -> Result<
    ConfigView,
    ConfigErrorView,
> {
    let merged = match file {
        Some(f) => spec_merge(cli, f),
        None => cli,
    };
    let defaulted = spec_merge(merged, spec_default_config());
    match defaulted.watched_command {
        None => Err(ConfigErrorView::MissingCommand),
        Some(cmd) => {
            let raw = match defaulted.keybindings {
                Some(kb) => kb,
                None => Seq::empty(),
            };
            match spec_parse_raw(raw) {
                Err(e) => Err(ConfigErrorView::Keybinding(e)),
                Ok(table) => Ok(
                    ConfigView {
                        watched_command: cmd,
                        watch_rate_ms: match defaulted.interval_ms {
                            Some(i) => i,
                            None => DEFAULT_INTERVAL_MS,
                        },
                        header_lines: match defaulted.header_lines {
                            Some(h) => h,
                            None => 0,
                        },
                        initial_env_variables: match defaulted.initial_env_variables {
                            Some(e) => e,
                            None => Seq::empty(),
                        },
                        keybindings: table,
                    },
                ),
            }
        },
    }
}

impl Config {
    /// Resolves the configuration from the partial configurations the
    /// command line and the optional file provided.
    pub fn parse(cli: TomlConfig, file: Option<TomlConfig>) -> (r: Result<Config, ConfigError>)
        ensures
            match r {
                Ok(c) => spec_config_parse(cli@, file.deep_view()) == Ok::<
                    ConfigView,
                    ConfigErrorView,
                >(c@),
                Err(e) => spec_config_parse(cli@, file.deep_view()) == Err::<
                    ConfigView,
                    ConfigErrorView,
                >(e@),
            },
    {
        let merged = match file {
            Some(f) => cli.merge(f),
            None => cli,
        };
        let defaulted = merged.merge(TomlConfig::default());
        let TomlConfig {
            watched_command,
            interval_ms,
            header_lines,
            initial_env_variables,
            keybindings,
        } = defaulted;
        let watched_command = match watched_command {
            Some(c) => c,
            None => {
                return Err(ConfigError::MissingCommand);
            },
        };
        let raw = match keybindings {
            Some(kb) => kb,
            None => Vec::new(),
        };
        proof {
            if keybindings is None {
                assert(raw.deep_view() =~= Seq::<(Seq<char>, Seq<Seq<char>>)>::empty());
            }
        }
        let table = match parse_raw(raw) {
            Ok(t) => t,
            Err(e) => {
                return Err(ConfigError::Keybinding(e));
            },
        };
        let env = match initial_env_variables {
            Some(e) => e,
            None => Vec::new(),
        };
        proof {
            if initial_env_variables is None {
                assert(env.deep_view() =~= Seq::<Seq<char>>::empty());
            }
        }
        Ok(
            Config {
                watched_command,
                watch_rate_ms: match interval_ms {
                    Some(i) => i,
                    None => DEFAULT_INTERVAL_MS,
                },
                header_lines: match header_lines {
                    Some(h) => h,
                    None => 0,
                },
                initial_env_variables: env,
                keybindings: table,
            },
        )
    }
}

} // verus!
