//! Runtime configuration: which sinks are enabled, at what levels, and how
//! much history the journal keeps.
use super::log_level::{level_rank, LogLevel};
use crate::base::scope::clone_opt_string;
use crate::journal::rotation::LogPolicy;
use crate::render::FileFormat;
use vstd::prelude::*;

verus! {

/// Default number of records the runtime journal keeps in memory.
pub const DEFAULT_MAX_JOURNAL_RECORDS: usize = 500;

/// Runtime configuration snapshot.
#[derive(Debug)]
pub struct Config {
    pub console_enabled: bool,
    pub console_level: LogLevel,
    pub console_color: bool,
    pub console_show_scope: bool,
    pub console_show_scope_exit: bool,
    pub console_duration: bool,
    pub console_timestamp: bool,
    pub file_enabled: bool,
    pub file_level: LogLevel,
    pub file_path: Option<String>,
    pub file_format: FileFormat,
    pub file_policy_max_bytes: Option<u64>,
    pub file_policy_keep_backups: Option<u32>,
    pub max_journal_records: usize,
}

/// The configuration at start: console on at `Info` with colors, scope
/// labels and exit lines; file output off (at `Debug`, text format once on).
pub open spec fn default_config() -> Config {
    Config {
        console_enabled: true,
        console_level: LogLevel::Info,
        console_color: true,
        console_show_scope: true,
        console_show_scope_exit: true,
        console_duration: false,
        console_timestamp: false,
        file_enabled: false,
        file_level: LogLevel::Debug,
        file_path: None,
        file_format: FileFormat::Text,
        file_policy_max_bytes: None,
        file_policy_keep_backups: None,
        max_journal_records: DEFAULT_MAX_JOURNAL_RECORDS,
    }
}

impl Default for Config {
    fn default() -> (c: Self)
        ensures
            c == default_config(),
    {
        Config {
            console_enabled: true,
            console_level: LogLevel::Info,
            console_color: true,
            console_show_scope: true,
            console_show_scope_exit: true,
            console_duration: false,
            console_timestamp: false,
            file_enabled: false,
            file_level: LogLevel::Debug,
            file_path: None,
            file_format: FileFormat::Text,
            file_policy_max_bytes: None,
            file_policy_keep_backups: None,
            max_journal_records: DEFAULT_MAX_JOURNAL_RECORDS,
        }
    }
}

impl Clone for Config {
    fn clone(&self) -> (c: Self)
        ensures
            c == *self,
    {
        Config {
            console_enabled: self.console_enabled,
            console_level: self.console_level,
            console_color: self.console_color,
            console_show_scope: self.console_show_scope,
            console_show_scope_exit: self.console_show_scope_exit,
            console_duration: self.console_duration,
            console_timestamp: self.console_timestamp,
            file_enabled: self.file_enabled,
            file_level: self.file_level,
            file_path: clone_opt_string(&self.file_path),
            file_format: self.file_format,
            file_policy_max_bytes: self.file_policy_max_bytes,
            file_policy_keep_backups: self.file_policy_keep_backups,
            max_journal_records: self.max_journal_records,
        }
    }
}

/// Two optional paths hold the same text.
pub open spec fn same_path(a: Option<String>, b: Option<String>) -> bool {
    match (a, b) {
        (Some(x), Some(y)) => x@ == y@,
        (None, None) => true,
        _ => false,
    }
}

/// Two configurations agree in every setting.
pub open spec fn same_config(a: Config, b: Config) -> bool {
    &&& a.console_enabled == b.console_enabled
    &&& a.console_level == b.console_level
    &&& a.console_color == b.console_color
    &&& a.console_show_scope == b.console_show_scope
    &&& a.console_show_scope_exit == b.console_show_scope_exit
    &&& a.console_duration == b.console_duration
    &&& a.console_timestamp == b.console_timestamp
    &&& a.file_enabled == b.file_enabled
    &&& a.file_level == b.file_level
    &&& same_path(a.file_path, b.file_path)
    &&& a.file_format == b.file_format
    &&& a.file_policy_max_bytes == b.file_policy_max_bytes
    &&& a.file_policy_keep_backups == b.file_policy_keep_backups
    &&& a.max_journal_records == b.max_journal_records
}

/// The rotation policy, when both of its parts are configured.
pub open spec fn config_policy(c: Config) -> Option<LogPolicy> {
    match (c.file_policy_max_bytes, c.file_policy_keep_backups) {
        (Some(m), Some(k)) => Some(LogPolicy { max_bytes: m, keep_backups: k }),
        _ => None,
    }
}

/// The more verbose of two levels.
pub open spec fn more_verbose(a: LogLevel, b: LogLevel) -> LogLevel {
    if level_rank(a) < level_rank(b) {
        a
    } else {
        b
    }
}

/// The most verbose level any enabled sink wants, `Off` with no sink enabled.
pub open spec fn config_effective_level(c: Config) -> LogLevel {
    let with_console = if c.console_enabled { more_verbose(c.console_level, LogLevel::Off) } else { LogLevel::Off };
    if c.file_enabled {
        more_verbose(c.file_level, with_console)
    } else {
        with_console
    }
}

impl Config {
    /// The rotation policy, when both of its parts are configured.
    pub fn file_policy(&self) -> (p: Option<LogPolicy>)
        ensures
            p == config_policy(*self),
    {
        match (self.file_policy_max_bytes, self.file_policy_keep_backups) {
            (Some(m), Some(k)) => Some(LogPolicy { max_bytes: m, keep_backups: k }),
            _ => None,
        }
    }

    /// The most verbose level any enabled sink wants, `Off` with no sink enabled.
    pub fn effective_level(&self) -> (l: LogLevel)
        ensures
            l == config_effective_level(*self),
    {
        let mut level = LogLevel::Off;
        if self.console_enabled && self.console_level.is_below(level) {
            level = self.console_level;
        }
        if self.file_enabled && self.file_level.is_below(level) {
            level = self.file_level;
        }
        level
    }

    /// The two configurations agree in every setting.
    pub fn same_as(&self, other: &Config) -> (b: bool)
        ensures
            b == same_config(*self, *other),
    {
        let paths = match (&self.file_path, &other.file_path) {
            (Some(x), Some(y)) => *x == *y,
            (None, None) => true,
            _ => false,
        };
        self.console_enabled == other.console_enabled && self.console_level == other.console_level
            && self.console_color == other.console_color && self.console_show_scope == other.console_show_scope
            && self.console_show_scope_exit == other.console_show_scope_exit && self.console_duration
            == other.console_duration && self.console_timestamp == other.console_timestamp && self.file_enabled
            == other.file_enabled && self.file_level == other.file_level && paths && self.file_format
            == other.file_format && self.file_policy_max_bytes == other.file_policy_max_bytes
            && self.file_policy_keep_backups == other.file_policy_keep_backups && self.max_journal_records
            == other.max_journal_records
    }
}

/// The effective level is the most verbose level among the enabled sinks:
/// no enabled sink is more verbose than it, and it is `Off` or the level of
/// an enabled sink.
pub proof fn lemma_effective_level_is_most_verbose(c: Config)
    ensures
        c.console_enabled ==> level_rank(config_effective_level(c)) <= level_rank(c.console_level),
        c.file_enabled ==> level_rank(config_effective_level(c)) <= level_rank(c.file_level),
        config_effective_level(c) == LogLevel::Off || (c.console_enabled && config_effective_level(c)
            == c.console_level) || (c.file_enabled && config_effective_level(c) == c.file_level),
{
}

} // verus!
