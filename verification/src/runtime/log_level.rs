//! Log levels and the two global thresholds: the output fast-path level,
//! derived from the enabled sinks, and the recording level.
use crate::base::event_kind::EventKind;
use crate::base::record::{Record, RecordKind, RecordKindView, RecordView};
use vstd::prelude::*;

verus! {

/// Logging verbosity level; lower levels are more verbose.
///
/// `Debug` allows everything, `Info` hides debug, `Warning` shows only
/// warnings and errors, `Error` only errors, and `Off` disables all output
/// (records still land in the journal).
#[derive(Debug, Clone, Copy, PartialEq, Eq, Structural, PartialOrd, Ord, Hash)]
pub enum LogLevel {
    Debug,
    Info,
    Warning,
    Error,
    Off,
}

/// The numeric value of a level: `Debug` 0 up to `Off` 4.
pub open spec fn level_rank(level: LogLevel) -> u8 {
    match level {
        LogLevel::Debug => 0,
        LogLevel::Info => 1,
        LogLevel::Warning => 2,
        LogLevel::Error => 3,
        LogLevel::Off => 4,
    }
}

/// The level with numeric value `v`; every value above 3 is `Off`.
pub open spec fn level_from_rank(v: u8) -> LogLevel {
    if v == 0 {
        LogLevel::Debug
    } else if v == 1 {
        LogLevel::Info
    } else if v == 2 {
        LogLevel::Warning
    } else if v == 3 {
        LogLevel::Error
    } else {
        LogLevel::Off
    }
}

/// The level that an event kind is emitted at.
pub open spec fn kind_level(kind: EventKind) -> LogLevel {
    match kind {
        EventKind::Debug => LogLevel::Debug,
        EventKind::Info => LogLevel::Info,
        EventKind::Warning => LogLevel::Warning,
        EventKind::Error => LogLevel::Error,
    }
}

impl LogLevel {
    /// The level with numeric value `v`; every value above 3 is `Off`.
    pub fn from_u8(v: u8) -> (l: Self)
        ensures
            l == level_from_rank(v),
    {
        match v {
            0 => LogLevel::Debug,
            1 => LogLevel::Info,
            2 => LogLevel::Warning,
            3 => LogLevel::Error,
            _ => LogLevel::Off,
        }
    }

    /// The numeric value of this level.
    pub fn as_u8(self) -> (v: u8)
        ensures
            v == level_rank(self),
    {
        match self {
            LogLevel::Debug => 0,
            LogLevel::Info => 1,
            LogLevel::Warning => 2,
            LogLevel::Error => 3,
            LogLevel::Off => 4,
        }
    }

    /// `self` is strictly more verbose than `other`.
    pub fn is_below(self, other: LogLevel) -> (b: bool)
        ensures
            b == (level_rank(self) < level_rank(other)),
    {
        self.as_u8() < other.as_u8()
    }
}

/// A level's number read back gives the level.
pub proof fn lemma_level_round_trip(level: LogLevel)
    ensures
        level_from_rank(level_rank(level)) == level,
{
}

/// The level that an event kind is emitted at.
pub fn level_for_event_kind(kind: EventKind) -> (l: LogLevel)
    ensures
        l == kind_level(kind),
{
    match kind {
        EventKind::Debug => LogLevel::Debug,
        EventKind::Info => LogLevel::Info,
        EventKind::Warning => LogLevel::Warning,
        EventKind::Error => LogLevel::Error,
    }
}

/// The global thresholds: `log` is the output fast-path level, the most
/// verbose level any enabled sink wants; `record` is the recording level.
#[derive(Debug, Clone, Copy, PartialEq, Eq, Structural)]
pub struct LevelThresholds {
    pub log: LogLevel,
    pub record: LogLevel,
}

/// The thresholds at start: output at `Info`, recording everything.
pub open spec fn default_thresholds() -> LevelThresholds {
    LevelThresholds { log: LogLevel::Info, record: LogLevel::Debug }
}

impl Default for LevelThresholds {
    fn default() -> (t: Self)
        ensures
            t == default_thresholds(),
    {
        LevelThresholds { log: LogLevel::Info, record: LogLevel::Debug }
    }
}

/// An event of `kind` passes `threshold`.
pub open spec fn passes(kind: EventKind, threshold: LogLevel) -> bool {
    level_rank(kind_level(kind)) >= level_rank(threshold)
}

/// Set the global output fast-path threshold.
pub fn set_log_level(t: &mut LevelThresholds, level: LogLevel)
    ensures
        *final(t) == (LevelThresholds { log: level, ..*old(t) }),
{
    t.log = level;
}

/// The global output fast-path threshold.
pub fn get_log_level(t: &LevelThresholds) -> (l: LogLevel)
    ensures
        l == t.log,
{
    LogLevel::from_u8(t.log.as_u8())
}

/// Set the recording threshold.
pub fn set_record_level(t: &mut LevelThresholds, level: LogLevel)
    ensures
        *final(t) == (LevelThresholds { record: level, ..*old(t) }),
{
    t.record = level;
}

/// The recording threshold.
pub fn get_record_level(t: &LevelThresholds) -> (l: LogLevel)
    ensures
        l == t.record,
{
    LogLevel::from_u8(t.record.as_u8())
}

/// An event of `kind` is enabled by the output fast-path threshold.
pub fn level_enabled(t: &LevelThresholds, kind: EventKind) -> (b: bool)
    ensures
        b == passes(kind, t.log),
{
    level_for_event_kind(kind).as_u8() >= t.log.as_u8()
}

/// An event of `kind` is recorded under the recording threshold.
pub fn recording_enabled(t: &LevelThresholds, kind: EventKind) -> (b: bool)
    ensures
        b == passes(kind, t.record),
{
    level_for_event_kind(kind).as_u8() >= t.record.as_u8()
}

/// A built record passes the output fast-path threshold; scope exits always do.
pub open spec fn record_passes(r: RecordView, threshold: LogLevel) -> bool {
    match r.kind {
        RecordKindView::Event { kind, .. } => passes(kind, threshold),
        RecordKindView::ScopeExit { .. } => true,
    }
}

/// A built record is enabled by the output fast-path threshold; scope exits
/// always are.
pub fn enabled_for_record(t: &LevelThresholds, record: &Record) -> (b: bool)
    ensures
        b == record_passes(record@, t.log),
{
    match &record.kind {
        RecordKind::Event { kind, .. } => level_enabled(t, *kind),
        RecordKind::ScopeExit { .. } => true,
    }
}

/// Raising a threshold never enables more: an event that passes a higher
/// threshold passes every lower one.
pub proof fn lemma_passes_monotone(kind: EventKind, low: LogLevel, high: LogLevel)
    requires
        level_rank(low) <= level_rank(high),
        passes(kind, high),
    ensures
        passes(kind, low),
{
}

/// `Off` passes no event.
pub proof fn lemma_off_passes_nothing(kind: EventKind)
    ensures
        !passes(kind, LogLevel::Off),
{
}

} // verus!
