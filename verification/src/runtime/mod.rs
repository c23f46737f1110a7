//! The runtime: the journal, the sink configuration and the thresholds
//! behind the logging API, as a state that each operation advances.
//!
//! Recording and emission are separate: every emitted event is recorded in
//! the journal, whatever the sinks and their levels are; the sink plan only
//! decides what is shown.
pub mod config;
pub mod log_level;
pub mod run_header;
pub mod scope_stack;

use crate::base::event_kind::EventKind;
use crate::base::id::ScopeId;
use crate::base::outcome::Outcome;
use crate::base::record::{Record, RecordKind, RecordKindView, RecordView};
use crate::base::scope::{clone_opt_string, ExitMessages, Scope};
use crate::journal::buffer::{finalized_scope, keep_newest, record_views, scope_id_is, set_messages_in};
use crate::base::value::Value;
use crate::journal::fields::Fields;
use crate::journal::rotation::LogPolicy;
use crate::journal::utils::{current_millis, current_nanos};
use crate::journal::{
    after_enter, after_exit, after_record, empty_journal, event_record, exit_record, scope_of_record, Journal,
    JournalView,
};
use crate::journal::properties::{fresh_kept, ids_fresh, ids_sound, journal_fresh, record_ids_fresh};
use crate::render::json::record_json;
use crate::render::{ConsoleStyle, FileFormat, FileStyle};
use crate::seqs::first_match;
use config::{config_effective_level, config_policy, default_config, same_config, Config};
use log_level::{default_thresholds, kind_level, level_rank, passes, LevelThresholds, LogLevel};
use scope_stack::{current_scope, remove_last_occurrence, remove_scope_from_stack, top, ScopeStack};
use vstd::prelude::*;

verus! {

/// How many `emit` calls pass between trims of the journal.
pub const TRIM_INTERVAL: usize = 128;

/// The console sink to build: its style and level.
#[derive(Debug, Clone, Copy)]
pub struct ConsoleSink {
    pub style: ConsoleStyle,
    pub level: LogLevel,
}

/// The file sink to build: its path, style, level, and rotation policy
/// (`None` for a plain appending file).
#[derive(Debug)]
pub struct FileSink {
    pub path: String,
    pub style: FileStyle,
    pub level: LogLevel,
    pub policy: Option<LogPolicy>,
}

/// The sinks to build for a configuration; no sink means output is discarded.
#[derive(Debug)]
pub struct WriterPlan {
    pub console: Option<ConsoleSink>,
    pub file: Option<FileSink>,
}

/// The sinks a configuration asks for: the console when enabled, with its
/// style flags; the file when enabled and a path is set, with timestamps,
/// scope labels, the configured format and, when both parts are set, its
/// rotation policy.
pub open spec fn plan_for(c: Config) -> WriterPlan {
    WriterPlan {
        console: if c.console_enabled {
            Some(
                ConsoleSink {
                    style: ConsoleStyle {
                        color: c.console_color,
                        show_scope: c.console_show_scope,
                        show_scope_exit: c.console_show_scope_exit,
                        show_duration: c.console_duration,
                        show_timestamp: c.console_timestamp,
                    },
                    level: c.console_level,
                },
            )
        } else {
            None
        },
        file: if c.file_enabled && c.file_path is Some {
            Some(
                FileSink {
                    path: c.file_path.unwrap(),
                    style: FileStyle { show_timestamp: true, show_scope: true, format: c.file_format },
                    level: c.file_level,
                    policy: config_policy(c),
                },
            )
        } else {
            None
        },
    }
}

/// The runtime state.
pub struct Runtime {
    journal: Journal,
    config: Config,
    last_cfg: Option<Config>,
    emit_count: usize,
    last_writer_error: Option<String>,
    levels: LevelThresholds,
}

/// The abstract state of a `Runtime`.
pub struct RuntimeView {
    pub journal: JournalView,
    pub config: Config,
    pub last_cfg: Option<Config>,
    pub emit_count: usize,
    pub last_writer_error: Option<String>,
    pub levels: LevelThresholds,
}

impl View for Runtime {
    type V = RuntimeView;

    closed spec fn view(&self) -> RuntimeView {
        RuntimeView {
            journal: self.journal@,
            config: self.config,
            last_cfg: self.last_cfg,
            emit_count: self.emit_count,
            last_writer_error: self.last_writer_error,
            levels: self.levels,
        }
    }
}

/// The runtime before any operation.
pub open spec fn initial_runtime() -> RuntimeView {
    RuntimeView {
        journal: empty_journal(),
        config: default_config(),
        last_cfg: None,
        emit_count: 0,
        last_writer_error: None,
        levels: default_thresholds(),
    }
}

/// The configuration is the one the sinks were last built for.
pub open spec fn unchanged_since_build(v: RuntimeView) -> bool {
    v.last_cfg matches Some(c) && same_config(c, v.config)
}

/// The state after rebuilding the sinks: nothing changes when the
/// configuration is the one they were built for; otherwise it is remembered
/// and the output threshold becomes its effective level.
pub open spec fn after_rebuild(v: RuntimeView) -> RuntimeView {
    if unchanged_since_build(v) {
        v
    } else {
        RuntimeView {
            last_cfg: Some(v.config),
            levels: LevelThresholds { log: config_effective_level(v.config), ..v.levels },
            ..v
        }
    }
}

/// The sinks to build after a configuration change, if they change.
pub open spec fn rebuild_plan(v: RuntimeView) -> Option<WriterPlan> {
    if unchanged_since_build(v) {
        None
    } else {
        Some(plan_for(v.config))
    }
}

/// The state after setting the configuration to `c` and rebuilding the sinks.
pub open spec fn after_configure(v: RuntimeView, c: Config) -> RuntimeView {
    after_rebuild(RuntimeView { config: c, ..v })
}

/// The sinks to build after setting the configuration to `c`.
pub open spec fn configure_plan(v: RuntimeView, c: Config) -> Option<WriterPlan> {
    rebuild_plan(RuntimeView { config: c, ..v })
}

/// `count + 1`, wrapping to 0 as an atomic counter does.
pub open spec fn next_count(count: usize) -> usize {
    if count == usize::MAX {
        0
    } else {
        (count + 1) as usize
    }
}

/// The journal after emitting an event: the event is recorded in the
/// innermost active scope, and on every `TRIM_INTERVAL`-th emit the journal
/// is trimmed to the retention limit.
pub open spec fn journal_after_emit(
    j: JournalView,
    emit_count: usize,
    max_records: usize,
    scope: Option<ScopeId>,
    kind: EventKind,
    message: String,
    fields: Seq<(String, Value)>,
    time_ns: u64,
) -> JournalView {
    let recorded = after_record(j, kind, message, fields, scope, time_ns);
    if emit_count % TRIM_INTERVAL == 0 {
        JournalView {
            records: keep_newest(recorded.records, max_records as nat),
            scopes: keep_newest(recorded.scopes, max_records as nat),
            ..recorded
        }
    } else {
        recorded
    }
}

/// The runtime after emitting an event at `time_ns` from a thread whose
/// innermost active scope is `scope`.
pub open spec fn after_emit(
    v: RuntimeView,
    scope: Option<ScopeId>,
    kind: EventKind,
    message: String,
    fields: Seq<(String, Value)>,
    time_ns: u64,
) -> RuntimeView {
    RuntimeView {
        journal: journal_after_emit(
            v.journal,
            v.emit_count,
            v.config.max_journal_records,
            scope,
            kind,
            message,
            fields,
            time_ns,
        ),
        emit_count: next_count(v.emit_count),
        ..v
    }
}

/// A record passes a sink level; scope exits always pass.
pub open spec fn record_enabled(r: RecordView, min_level: LogLevel) -> bool {
    match r.kind {
        RecordKindView::Event { kind, .. } => level_rank(kind_level(kind)) >= level_rank(min_level),
        RecordKindView::ScopeExit { .. } => true,
    }
}

impl Runtime {
    /// A fresh runtime: an empty journal, the default configuration, no
    /// sinks built yet, output at `Info` and recording at `Debug`.
    pub fn new() -> (rt: Self)
        ensures
            rt@ == initial_runtime(),
            journal_fresh(rt@.journal),
            ids_sound(rt@.journal),
    {
        Runtime {
            journal: Journal::new(),
            config: Config::default(),
            last_cfg: None,
            emit_count: 0,
            last_writer_error: None,
            levels: LevelThresholds::default(),
        }
    }

    /// The current configuration.
    pub fn config(&self) -> (c: &Config)
        ensures
            *c == self@.config,
    {
        &self.config
    }

    fn set_config(&mut self, c: Config)
        ensures
            final(self)@ == (RuntimeView { config: c, ..old(self)@ }),
    {
        self.config = c;
    }
}

fn plan_exec(c: &Config) -> (p: WriterPlan)
    ensures
        p == plan_for(*c),
{
    let console = if c.console_enabled {
        Some(
            ConsoleSink {
                style: ConsoleStyle {
                    color: c.console_color,
                    show_scope: c.console_show_scope,
                    show_scope_exit: c.console_show_scope_exit,
                    show_duration: c.console_duration,
                    show_timestamp: c.console_timestamp,
                },
                level: c.console_level,
            },
        )
    } else {
        None
    };
    let file = if c.file_enabled {
        match &c.file_path {
            Some(path) => Some(
                FileSink {
                    path: path.clone(),
                    style: FileStyle { show_timestamp: true, show_scope: true, format: c.file_format },
                    level: c.file_level,
                    policy: c.file_policy(),
                },
            ),
            None => None,
        }
    } else {
        None
    };
    WriterPlan { console, file }
}

/// Rebuild the sinks after a configuration change. Returns `None` when the
/// configuration is the one the sinks were built for; otherwise remembers
/// it, sets the output threshold to its effective level, and returns the
/// sinks to build.
pub fn rebuild_writers(rt: &mut Runtime) -> (plan: Option<WriterPlan>)
    ensures
        final(rt)@ == after_rebuild(old(rt)@),
        plan == rebuild_plan(old(rt)@),
{
    let unchanged = match &rt.last_cfg {
        Some(last) => last.same_as(&rt.config),
        None => false,
    };
    if unchanged {
        return None;
    }
    let cfg = rt.config.clone();
    let level = cfg.effective_level();
    let plan = plan_exec(&cfg);
    rt.last_cfg = Some(cfg);
    rt.levels.log = level;
    Some(plan)
}

fn configure(rt: &mut Runtime, c: Config) -> (plan: Option<WriterPlan>)
    ensures
        final(rt)@ == after_configure(old(rt)@, c),
        plan == configure_plan(old(rt)@, c),
{
    rt.set_config(c);
    rebuild_writers(rt)
}

/// Initialise the runtime's sinks.
pub fn init_sync(rt: &mut Runtime) -> (plan: Option<WriterPlan>)
    ensures
        final(rt)@ == after_rebuild(old(rt)@),
        plan == rebuild_plan(old(rt)@),
{
    rebuild_writers(rt)
}

/// Turn console output on or off.
pub fn enable_console_output(rt: &mut Runtime, enable: bool) -> (plan: Option<WriterPlan>)
    ensures
        final(rt)@ == after_configure(old(rt)@, Config { console_enabled: enable, ..old(rt)@.config }),
        plan == configure_plan(old(rt)@, Config { console_enabled: enable, ..old(rt)@.config }),
{
    let mut c = rt.config.clone();
    c.console_enabled = enable;
    configure(rt, c)
}

/// Set the console sink's level.
pub fn set_console_level(rt: &mut Runtime, level: LogLevel) -> (plan: Option<WriterPlan>)
    ensures
        final(rt)@ == after_configure(old(rt)@, Config { console_level: level, ..old(rt)@.config }),
        plan == configure_plan(old(rt)@, Config { console_level: level, ..old(rt)@.config }),
{
    let mut c = rt.config.clone();
    c.console_level = level;
    configure(rt, c)
}

/// Turn console colors on or off.
pub fn enable_console_color(rt: &mut Runtime, enable: bool) -> (plan: Option<WriterPlan>)
    ensures
        final(rt)@ == after_configure(old(rt)@, Config { console_color: enable, ..old(rt)@.config }),
        plan == configure_plan(old(rt)@, Config { console_color: enable, ..old(rt)@.config }),
{
    let mut c = rt.config.clone();
    c.console_color = enable;
    configure(rt, c)
}

/// Show or hide scope labels on console lines.
pub fn enable_console_scope_labels(rt: &mut Runtime, enable: bool) -> (plan: Option<WriterPlan>)
    ensures
        final(rt)@ == after_configure(old(rt)@, Config { console_show_scope: enable, ..old(rt)@.config }),
        plan == configure_plan(old(rt)@, Config { console_show_scope: enable, ..old(rt)@.config }),
{
    let mut c = rt.config.clone();
    c.console_show_scope = enable;
    configure(rt, c)
}

/// Show or hide scope-exit lines on the console.
pub fn enable_console_scope_exits(rt: &mut Runtime, enable: bool) -> (plan: Option<WriterPlan>)
    ensures
        final(rt)@ == after_configure(old(rt)@, Config { console_show_scope_exit: enable, ..old(rt)@.config }),
        plan == configure_plan(old(rt)@, Config { console_show_scope_exit: enable, ..old(rt)@.config }),
{
    let mut c = rt.config.clone();
    c.console_show_scope_exit = enable;
    configure(rt, c)
}

/// Show or hide durations on console exit lines.
pub fn enable_console_duration(rt: &mut Runtime, enable: bool) -> (plan: Option<WriterPlan>)
    ensures
        final(rt)@ == after_configure(old(rt)@, Config { console_duration: enable, ..old(rt)@.config }),
        plan == configure_plan(old(rt)@, Config { console_duration: enable, ..old(rt)@.config }),
{
    let mut c = rt.config.clone();
    c.console_duration = enable;
    configure(rt, c)
}

/// Show or hide timestamps on console lines.
pub fn enable_console_timestamp(rt: &mut Runtime, enable: bool) -> (plan: Option<WriterPlan>)
    ensures
        final(rt)@ == after_configure(old(rt)@, Config { console_timestamp: enable, ..old(rt)@.config }),
        plan == configure_plan(old(rt)@, Config { console_timestamp: enable, ..old(rt)@.config }),
{
    let mut c = rt.config.clone();
    c.console_timestamp = enable;
    configure(rt, c)
}

/// The configuration with plain file output to `path`.
pub open spec fn with_file_output(c: Config, path: String, format: FileFormat) -> Config {
    Config {
        file_enabled: true,
        file_path: Some(path),
        file_level: LogLevel::Debug,
        file_format: format,
        file_policy_max_bytes: None,
        file_policy_keep_backups: None,
        ..c
    }
}

/// Append text lines to the file at `path`, at level `Debug`, without rotation.
pub fn enable_file_output(rt: &mut Runtime, path: String) -> (plan: Option<WriterPlan>)
    ensures
        final(rt)@ == after_configure(old(rt)@, with_file_output(old(rt)@.config, path, FileFormat::Text)),
        plan == configure_plan(old(rt)@, with_file_output(old(rt)@.config, path, FileFormat::Text)),
{
    let mut c = rt.config.clone();
    c.file_enabled = true;
    c.file_path = Some(path);
    c.file_level = LogLevel::Debug;
    c.file_format = FileFormat::Text;
    c.file_policy_max_bytes = None;
    c.file_policy_keep_backups = None;
    configure(rt, c)
}

/// Append JSON lines to the file at `path`, at level `Debug`, without rotation.
pub fn enable_file_output_jsonl(rt: &mut Runtime, path: String) -> (plan: Option<WriterPlan>)
    ensures
        final(rt)@ == after_configure(old(rt)@, with_file_output(old(rt)@.config, path, FileFormat::Jsonl)),
        plan == configure_plan(old(rt)@, with_file_output(old(rt)@.config, path, FileFormat::Jsonl)),
{
    let mut c = rt.config.clone();
    c.file_enabled = true;
    c.file_path = Some(path);
    c.file_level = LogLevel::Debug;
    c.file_format = FileFormat::Jsonl;
    c.file_policy_max_bytes = None;
    c.file_policy_keep_backups = None;
    configure(rt, c)
}

/// The configuration with rotating file output to `path`; the format stays.
pub open spec fn with_rotating_output(c: Config, path: String, policy: LogPolicy) -> Config {
    Config {
        file_enabled: true,
        file_level: LogLevel::Debug,
        file_path: Some(path),
        file_policy_max_bytes: Some(policy.max_bytes),
        file_policy_keep_backups: Some(policy.keep_backups),
        ..c
    }
}

/// Write to the file at `path` at level `Debug`, rotating it under `policy`.
/// The caller prepares the file (rotation at open, run header) first.
pub fn enable_file_output_rotating(rt: &mut Runtime, path: String, policy: LogPolicy) -> (plan: Option<WriterPlan>)
    ensures
        final(rt)@ == after_configure(old(rt)@, with_rotating_output(old(rt)@.config, path, policy)),
        plan == configure_plan(old(rt)@, with_rotating_output(old(rt)@.config, path, policy)),
{
    let mut c = rt.config.clone();
    c.file_enabled = true;
    c.file_level = LogLevel::Debug;
    c.file_path = Some(path);
    c.file_policy_max_bytes = Some(policy.max_bytes);
    c.file_policy_keep_backups = Some(policy.keep_backups);
    configure(rt, c)
}

/// Set the file sink's level.
pub fn set_file_level(rt: &mut Runtime, level: LogLevel) -> (plan: Option<WriterPlan>)
    ensures
        final(rt)@ == after_configure(old(rt)@, Config { file_level: level, ..old(rt)@.config }),
        plan == configure_plan(old(rt)@, Config { file_level: level, ..old(rt)@.config }),
{
    let mut c = rt.config.clone();
    c.file_level = level;
    configure(rt, c)
}

/// Set the file sink's format.
pub fn set_file_format(rt: &mut Runtime, format: FileFormat) -> (plan: Option<WriterPlan>)
    ensures
        final(rt)@ == after_configure(old(rt)@, Config { file_format: format, ..old(rt)@.config }),
        plan == configure_plan(old(rt)@, Config { file_format: format, ..old(rt)@.config }),
{
    let mut c = rt.config.clone();
    c.file_format = format;
    configure(rt, c)
}

/// Keep at most `max_records` records (at least one) in the journal.
pub fn set_journal_retention(rt: &mut Runtime, max_records: usize)
    ensures
        final(rt)@ == (RuntimeView {
            config: Config { max_journal_records: if max_records >= 1 { max_records } else { 1 }, ..old(rt)@.config },
            ..old(rt)@
        }),
{
    let mut c = rt.config.clone();
    c.max_journal_records = if max_records >= 1 {
        max_records
    } else {
        1
    };
    rt.set_config(c);
}

/// The configuration without file output.
pub open spec fn without_file_output(c: Config) -> Config {
    Config {
        file_enabled: false,
        file_path: None,
        file_policy_max_bytes: None,
        file_policy_keep_backups: None,
        ..c
    }
}

/// Stop file output.
pub fn disable_file_output(rt: &mut Runtime) -> (plan: Option<WriterPlan>)
    ensures
        final(rt)@ == after_configure(old(rt)@, without_file_output(old(rt)@.config)),
        plan == configure_plan(old(rt)@, without_file_output(old(rt)@.config)),
{
    let mut c = rt.config.clone();
    c.file_enabled = false;
    c.file_path = None;
    c.file_policy_max_bytes = None;
    c.file_policy_keep_backups = None;
    configure(rt, c)
}

/// Stop all output; events are still recorded.
pub fn disable_all_output(rt: &mut Runtime) -> (plan: Option<WriterPlan>)
    ensures
        final(rt)@ == after_configure(
            old(rt)@,
            Config { console_enabled: false, ..without_file_output(old(rt)@.config) },
        ),
        plan == configure_plan(old(rt)@, Config { console_enabled: false, ..without_file_output(old(rt)@.config) }),
{
    let mut c = rt.config.clone();
    c.console_enabled = false;
    c.file_enabled = false;
    c.file_path = None;
    c.file_policy_max_bytes = None;
    c.file_policy_keep_backups = None;
    configure(rt, c)
}

/// Set the output fast-path threshold; a later rebuild of the sinks sets
/// it to the configuration's effective level again.
pub fn set_output_level(rt: &mut Runtime, level: LogLevel)
    ensures
        final(rt)@ == (RuntimeView { levels: LevelThresholds { log: level, ..old(rt)@.levels }, ..old(rt)@ }),
{
    rt.levels.log = level;
}

/// Set the recording threshold: events of a lower level are not recorded.
pub fn set_recording_level(rt: &mut Runtime, level: LogLevel)
    ensures
        final(rt)@ == (RuntimeView { levels: LevelThresholds { record: level, ..old(rt)@.levels }, ..old(rt)@ }),
{
    rt.levels.record = level;
}

/// The output fast-path and recording thresholds.
pub fn levels(rt: &Runtime) -> (t: LevelThresholds)
    ensures
        t == rt@.levels,
{
    rt.levels
}

/// Record the outcome of building the sinks: the error text of a sink that
/// could not be opened, or `None`.
pub fn set_last_writer_error(rt: &mut Runtime, error: Option<String>)
    ensures
        final(rt)@ == (RuntimeView { last_writer_error: error, ..old(rt)@ }),
{
    rt.last_writer_error = error;
}

/// The error of the last sink build, if a sink could not be opened.
pub fn last_writer_error(rt: &Runtime) -> (e: Option<String>)
    ensures
        e == rt@.last_writer_error,
{
    clone_opt_string(&rt.last_writer_error)
}

/// Emit an event at `now_ns` from the thread with scope stack `stack`: it is
/// recorded in the innermost active scope whatever the sinks are. Returns
/// the record and its scope, for the sinks.
pub fn emit_at(
    rt: &mut Runtime,
    stack: &ScopeStack,
    kind: EventKind,
    message: String,
    fields: Fields,
    now_ns: u64,
) -> (r: (Record, Option<Scope>))
    ensures
        fresh_kept(old(rt)@.journal, final(rt)@.journal),
        !old(rt)@.journal.ids_spent ==> forall|i: int|
            0 <= i < old(rt)@.journal.records.len() ==> old(rt)@.journal.records[i].id != r.0.id,
        ids_sound(final(rt)@.journal),
        final(rt)@ == after_emit(old(rt)@, top(stack@), kind, message, fields@, now_ns),
        r.0@ == event_record(
            crate::base::id::RecordId(old(rt)@.journal.next_record_id),
            top(stack@),
            now_ns,
            kind,
            message,
            fields@,
        ),
        r.1 == match top(stack@) {
            Some(sid) => first_match(old(rt)@.journal.scopes, scope_id_is(sid)),
            None => None,
        },
{
    proof {
        use_type_invariant(&rt.journal);
    }
    let active_scope = current_scope(stack);
    let (_, record, scope) = rt.journal.record_no_write_in_scope_at(kind, message, fields, active_scope, now_ns);
    let count = rt.emit_count;
    rt.emit_count = if count == usize::MAX {
        0
    } else {
        count + 1
    };
    if count % TRIM_INTERVAL == 0 {
        let max_records = rt.config.max_journal_records;
        rt.journal.trim_records(max_records);
        rt.journal.trim_scopes(max_records);
    }
    proof {
        use_type_invariant(&rt.journal);
    }
    (record, scope)
}

/// Emit an event now from the thread with scope stack `stack`.
pub fn emit(rt: &mut Runtime, stack: &ScopeStack, kind: EventKind, message: String, fields: Fields) -> (r: (
    Record,
    Option<Scope>,
))
    ensures
        fresh_kept(old(rt)@.journal, final(rt)@.journal),
        !old(rt)@.journal.ids_spent ==> forall|i: int|
            0 <= i < old(rt)@.journal.records.len() ==> old(rt)@.journal.records[i].id != r.0.id,
        ids_sound(final(rt)@.journal),
        final(rt)@ == after_emit(old(rt)@, top(stack@), kind, message, fields@, r.0.time_ns),
        r.0@ == event_record(
            crate::base::id::RecordId(old(rt)@.journal.next_record_id),
            top(stack@),
            r.0.time_ns,
            kind,
            message,
            fields@,
        ),
{
    let now = current_nanos();
    emit_at(rt, stack, kind, message, fields, now)
}

/// Enter a named scope at `now_ms` under the thread's innermost active scope;
/// it becomes the innermost.
pub fn enter_scope_at(rt: &mut Runtime, stack: &mut ScopeStack, name: String, now_ms: u64) -> (id: ScopeId)
    ensures
        fresh_kept(old(rt)@.journal, final(rt)@.journal),
        !old(rt)@.journal.ids_spent ==> forall|i: int|
            0 <= i < old(rt)@.journal.scopes.len() ==> old(rt)@.journal.scopes[i].id != id,
        ids_sound(final(rt)@.journal),
        id == ScopeId(old(rt)@.journal.next_scope_id),
        final(rt)@ == (RuntimeView {
            journal: after_enter(old(rt)@.journal, Some(name), top(old(stack)@), now_ms, false),
            ..old(rt)@
        }),
        final(stack)@ == old(stack)@.push(id),
{
    proof {
        use_type_invariant(&rt.journal);
    }
    let parent = current_scope(stack);
    let id = rt.journal.enter_scope_with_parent_at(name, parent, now_ms);
    stack.push(id);
    proof {
        use_type_invariant(&rt.journal);
    }
    id
}

/// Enter a named scope now under the thread's innermost active scope.
pub fn enter_scope(rt: &mut Runtime, stack: &mut ScopeStack, name: String) -> (id: ScopeId)
    ensures
        fresh_kept(old(rt)@.journal, final(rt)@.journal),
        !old(rt)@.journal.ids_spent ==> forall|i: int|
            0 <= i < old(rt)@.journal.scopes.len() ==> old(rt)@.journal.scopes[i].id != id,
        ids_sound(final(rt)@.journal),
        id == ScopeId(old(rt)@.journal.next_scope_id),
        final(rt)@ == (RuntimeView {
            journal: after_enter(
                old(rt)@.journal,
                Some(name),
                top(old(stack)@),
                final(rt)@.journal.scopes.last().entered_at,
                false,
            ),
            ..old(rt)@
        }),
        final(stack)@ == old(stack)@.push(id),
{
    let now = current_millis();
    enter_scope_at(rt, stack, name, now)
}

/// Merge per-outcome exit messages into scope `id`.
pub fn set_scope_exit_messages(rt: &mut Runtime, id: ScopeId, msgs: ExitMessages)
    ensures
        journal_fresh(old(rt)@.journal) ==> journal_fresh(final(rt)@.journal),
        final(rt)@ == (RuntimeView {
            journal: JournalView { scopes: set_messages_in(old(rt)@.journal.scopes, id, msgs), ..old(rt)@.journal },
            ..old(rt)@
        }),
{
    rt.journal.set_scope_exit_messages(id, msgs);
}

/// Exit scope `id` with `outcome` at `now_ms` / `now_ns`. When the scope is
/// finalized, it leaves the thread's stack and the exit record and scope are
/// returned for the sinks; exiting an unknown or exited scope changes
/// neither the journal's records nor the stack.
pub fn exit_scope_at(
    rt: &mut Runtime,
    stack: &mut ScopeStack,
    id: ScopeId,
    outcome: Outcome,
    now_ms: u64,
    now_ns: u64,
) -> (r: Option<(Record, Scope)>)
    ensures
        fresh_kept(old(rt)@.journal, final(rt)@.journal),
        final(rt)@ == (RuntimeView { journal: after_exit(old(rt)@.journal, id, outcome, now_ms, now_ns), ..old(rt)@ }),
        match finalized_scope(old(rt)@.journal.scopes, id, now_ms) {
            Some(s) => {
                &&& r matches Some(p)
                &&& p.1 == s
                &&& p.0@ == exit_record(
                    crate::base::id::RecordId(old(rt)@.journal.next_record_id),
                    now_ns,
                    outcome,
                    s,
                )
                &&& final(stack)@ == remove_last_occurrence(old(stack)@, id)
            },
            None => r is None && final(stack)@ == old(stack)@,
        },
{
    let (_, payload) = rt.journal.exit_scope_no_write_at(id, outcome, now_ms, now_ns);
    if payload.is_some() {
        remove_scope_from_stack(stack, id);
    }
    payload
}

/// Exit scope `id` with `outcome` now.
pub fn exit_scope(rt: &mut Runtime, stack: &mut ScopeStack, id: ScopeId, outcome: Outcome) -> (r: Option<
    (Record, Scope),
>)
    ensures
        fresh_kept(old(rt)@.journal, final(rt)@.journal),
        match r {
            Some(p) => {
                &&& p.1.exited_at is Some
                &&& finalized_scope(old(rt)@.journal.scopes, id, p.1.exited_at.unwrap()) == Some(p.1)
                &&& final(rt)@ == (RuntimeView {
                    journal: after_exit(old(rt)@.journal, id, outcome, p.1.exited_at.unwrap(), p.0.time_ns),
                    ..old(rt)@
                })
                &&& final(stack)@ == remove_last_occurrence(old(stack)@, id)
            },
            None => {
                &&& finalized_scope(old(rt)@.journal.scopes, id, 0) is None
                &&& final(rt)@ == (RuntimeView { journal: after_exit(old(rt)@.journal, id, outcome, 0, 0), ..old(rt)@ })
                &&& final(stack)@ == old(stack)@
            },
        },
{
    let now_ms = current_millis();
    let now_ns = current_nanos();
    exit_scope_at(rt, stack, id, outcome, now_ms, now_ns)
}

/// A copy of the journal's records, oldest first.
pub fn records(rt: &Runtime) -> (v: Vec<Record>)
    ensures
        record_views(v@) == rt@.journal.records,
{
    rt.journal.records()
}

/// A copy of the journal's scopes.
pub fn scopes(rt: &Runtime) -> (v: Vec<Scope>)
    ensures
        v@ == rt@.journal.scopes,
{
    rt.journal.scopes()
}

/// The journal's records as JSON lines.
pub fn records_jsonl(rt: &Runtime) -> (lines: Vec<String>)
    ensures
        lines@.len() == rt@.journal.records.len(),
        forall|i: int|
            0 <= i < lines@.len() ==> (#[trigger] lines@[i])@ == record_json(
                rt@.journal.records[i],
                scope_of_record(rt@.journal.scopes, rt@.journal.records[i]),
            ),
{
    rt.journal.records_jsonl()
}

/// Forget all records, scopes, the emit count, the writer error and the
/// thread's active scopes.
pub fn clear(rt: &mut Runtime, stack: &mut ScopeStack)
    ensures
        journal_fresh(final(rt)@.journal),
        final(rt)@ == (RuntimeView {
            journal: JournalView {
                records: Seq::empty(),
                scopes: Seq::empty(),
                current_scope: None,
                ..old(rt)@.journal
            },
            emit_count: 0,
            last_writer_error: None,
            ..old(rt)@
        }),
        final(stack)@ == Seq::<ScopeId>::empty(),
{
    rt.journal.clear();
    rt.emit_count = 0;
    rt.last_writer_error = None;
    stack.clear();
}

/// A record passes a sink whose level is `min_level`; scope exits always do.
pub fn record_enabled_at_level(record: &Record, min_level: LogLevel) -> (b: bool)
    ensures
        b == record_enabled(record@, min_level),
{
    match &record.kind {
        RecordKind::Event { kind, .. } => log_level::level_for_event_kind(*kind).as_u8() >= min_level.as_u8(),
        RecordKind::ScopeExit { .. } => true,
    }
}

/// A guard for a runtime scope: it remembers the scope and whether it has
/// been exited, so that the scope is exited once.
#[derive(Debug)]
pub struct RuntimeScopeGuard {
    id: ScopeId,
    exited: bool,
}

impl View for RuntimeScopeGuard {
    type V = (ScopeId, bool);

    closed spec fn view(&self) -> (ScopeId, bool) {
        (self.id, self.exited)
    }
}

impl RuntimeScopeGuard {
    /// Enter a named runtime scope and guard it.
    pub fn enter(rt: &mut Runtime, stack: &mut ScopeStack, name: String) -> (g: Self)
        ensures
            fresh_kept(old(rt)@.journal, final(rt)@.journal),
            !old(rt)@.journal.ids_spent ==> forall|i: int|
                0 <= i < old(rt)@.journal.scopes.len() ==> old(rt)@.journal.scopes[i].id != g@.0,
            g@ == (ScopeId(old(rt)@.journal.next_scope_id), false),
            final(rt)@ == (RuntimeView {
                journal: after_enter(
                    old(rt)@.journal,
                    Some(name),
                    top(old(stack)@),
                    final(rt)@.journal.scopes.last().entered_at,
                    false,
                ),
                ..old(rt)@
            }),
            final(stack)@ == old(stack)@.push(g@.0),
    {
        let id = enter_scope(rt, stack, name);
        RuntimeScopeGuard { id, exited: false }
    }

    /// The guarded scope's id.
    pub fn id(&self) -> (id: ScopeId)
        ensures
            id == self@.0,
    {
        self.id
    }

    /// Whether the guarded scope has been exited through the guard.
    pub fn is_exited(&self) -> (b: bool)
        ensures
            b == self@.1,
    {
        self.exited
    }

    /// Exit the scope with `outcome` unless the guard already did; later
    /// calls change nothing.
    pub fn exit(&mut self, rt: &mut Runtime, stack: &mut ScopeStack, outcome: Outcome) -> (r: Option<(Record, Scope)>)
        ensures
            fresh_kept(old(rt)@.journal, final(rt)@.journal),
            final(self)@ == (old(self)@.0, true),
            old(self)@.1 ==> r is None && final(rt)@ == old(rt)@ && final(stack)@ == old(stack)@,
            !old(self)@.1 ==> exists|at_ms: u64, t_ns: u64|
                final(rt)@ == (RuntimeView {
                    journal: #[trigger] after_exit(old(rt)@.journal, old(self)@.0, outcome, at_ms, t_ns),
                    ..old(rt)@
                }),
    {
        if self.exited {
            return None;
        }
        let r = exit_scope(rt, stack, self.id, outcome);
        self.exited = true;
        proof {
            match &r {
                Some(p) => {
                    assert(rt@ == (RuntimeView {
                        journal: after_exit(old(rt)@.journal, old(self)@.0, outcome, p.1.exited_at.unwrap(), p.0.time_ns),
                        ..old(rt)@
                    }));
                },
                None => {
                    assert(rt@ == (RuntimeView {
                        journal: after_exit(old(rt)@.journal, old(self)@.0, outcome, 0, 0),
                        ..old(rt)@
                    }));
                },
            }
        }
        r
    }

    /// Exit the scope as a success.
    pub fn success(self, rt: &mut Runtime, stack: &mut ScopeStack) -> (r: Option<(Record, Scope)>)
        ensures
            fresh_kept(old(rt)@.journal, final(rt)@.journal),
            self@.1 ==> r is None && final(rt)@ == old(rt)@,
            !self@.1 ==> exists|at_ms: u64, t_ns: u64|
                final(rt)@ == (RuntimeView {
                    journal: #[trigger] after_exit(old(rt)@.journal, self@.0, Outcome::Success, at_ms, t_ns),
                    ..old(rt)@
                }),
    {
        let mut g = self;
        g.exit(rt, stack, Outcome::Success)
    }

    /// Exit the scope as a failure.
    pub fn failure(self, rt: &mut Runtime, stack: &mut ScopeStack) -> (r: Option<(Record, Scope)>)
        ensures
            fresh_kept(old(rt)@.journal, final(rt)@.journal),
            self@.1 ==> r is None && final(rt)@ == old(rt)@,
            !self@.1 ==> exists|at_ms: u64, t_ns: u64|
                final(rt)@ == (RuntimeView {
                    journal: #[trigger] after_exit(old(rt)@.journal, self@.0, Outcome::Failure, at_ms, t_ns),
                    ..old(rt)@
                }),
    {
        let mut g = self;
        g.exit(rt, stack, Outcome::Failure)
    }

    /// Exit the scope as aborted.
    pub fn aborted(self, rt: &mut Runtime, stack: &mut ScopeStack) -> (r: Option<(Record, Scope)>)
        ensures
            fresh_kept(old(rt)@.journal, final(rt)@.journal),
            self@.1 ==> r is None && final(rt)@ == old(rt)@,
            !self@.1 ==> exists|at_ms: u64, t_ns: u64|
                final(rt)@ == (RuntimeView {
                    journal: #[trigger] after_exit(old(rt)@.journal, self@.0, Outcome::Aborted, at_ms, t_ns),
                    ..old(rt)@
                }),
    {
        let mut g = self;
        g.exit(rt, stack, Outcome::Aborted)
    }
}

/// Enter a named runtime scope and guard it.
pub fn scope_guard(rt: &mut Runtime, stack: &mut ScopeStack, name: String) -> (g: RuntimeScopeGuard)
    ensures
        fresh_kept(old(rt)@.journal, final(rt)@.journal),
        !old(rt)@.journal.ids_spent ==> forall|i: int|
            0 <= i < old(rt)@.journal.scopes.len() ==> old(rt)@.journal.scopes[i].id != g@.0,
        g@ == (ScopeId(old(rt)@.journal.next_scope_id), false),
        final(stack)@ == old(stack)@.push(g@.0),
{
    RuntimeScopeGuard::enter(rt, stack, name)
}

/// Recording does not depend on the sinks: two runtimes that hold the same
/// journal, have emitted as many events and keep as many records record an
/// event in the same way, whatever their sinks, levels and other settings.
pub proof fn lemma_recording_ignores_sinks(
    v: RuntimeView,
    w: RuntimeView,
    scope: Option<ScopeId>,
    kind: EventKind,
    message: String,
    fields: Seq<(String, Value)>,
    time_ns: u64,
)
    requires
        v.journal == w.journal,
        v.emit_count == w.emit_count,
        v.config.max_journal_records == w.config.max_journal_records,
    ensures
        after_emit(v, scope, kind, message, fields, time_ns).journal == after_emit(
            w,
            scope,
            kind,
            message,
            fields,
            time_ns,
        ).journal,
{
}

/// Every emitted event is recorded: with a retention of at least one
/// record, the event is the journal's newest record after the emit, in the
/// innermost active scope.
pub proof fn lemma_emit_records_event(
    v: RuntimeView,
    scope: Option<ScopeId>,
    kind: EventKind,
    message: String,
    fields: Seq<(String, Value)>,
    time_ns: u64,
)
    requires
        v.config.max_journal_records >= 1,
    ensures
        ({
            let records = after_emit(v, scope, kind, message, fields, time_ns).journal.records;
            records.len() > 0 && records.last() == event_record(
                crate::base::id::RecordId(v.journal.next_record_id),
                scope,
                time_ns,
                kind,
                message,
                fields,
            )
        }),
{
    let recorded = after_record(v.journal, kind, message, fields, scope, time_ns);
    let max = v.config.max_journal_records as nat;
    if recorded.records.len() > max {
        let kept = recorded.records.skip(recorded.records.len() - max);
        assert(kept.last() == recorded.records.last());
    }
}

/// Retention is bounded: on every `TRIM_INTERVAL`-th emit the journal is
/// cut to the newest `max_journal_records` records and scopes.
pub proof fn lemma_retention_bounded(
    v: RuntimeView,
    scope: Option<ScopeId>,
    kind: EventKind,
    message: String,
    fields: Seq<(String, Value)>,
    time_ns: u64,
)
    requires
        v.emit_count % TRIM_INTERVAL == 0,
    ensures
        ({
            let j = after_emit(v, scope, kind, message, fields, time_ns).journal;
            &&& j.records.len() <= v.config.max_journal_records
            &&& j.scopes.len() <= v.config.max_journal_records
        }),
{
}

/// With room left under the retention limit, an emit appends exactly its
/// event record and leaves the scopes as they were, whatever the sinks;
/// until an id counter has reached its end, the new record's id differs
/// from every earlier one.
pub proof fn lemma_emit_appends(
    v: RuntimeView,
    scope: Option<ScopeId>,
    kind: EventKind,
    message: String,
    fields: Seq<(String, Value)>,
    time_ns: u64,
)
    requires
        ids_sound(v.journal),
        v.journal.records.len() + 1 <= v.config.max_journal_records,
        v.journal.scopes.len() <= v.config.max_journal_records,
    ensures
        ({
            let j = after_emit(v, scope, kind, message, fields, time_ns).journal;
            let r = event_record(crate::base::id::RecordId(v.journal.next_record_id), scope, time_ns, kind, message, fields);
            &&& j.records == v.journal.records.push(r)
            &&& j.scopes == v.journal.scopes
            &&& !v.journal.ids_spent ==> forall|i: int|
                0 <= i < v.journal.records.len() ==> v.journal.records[i].id != r.id
        }),
{
    let recorded = after_record(v.journal, kind, message, fields, scope, time_ns);
    assert(recorded.records.len() <= v.config.max_journal_records);
}


/// A sink shows an event exactly at the levels up to the event's own: an
/// event of kind `k` passes a sink set to `kind_level(k)`, passes every less
/// severe level, and is dropped by every more severe one; scope exits pass
/// every sink.
pub proof fn lemma_sink_level_gate(r: RecordView, min_level: LogLevel)
    ensures
        r.kind matches RecordKindView::Event { kind, .. } ==> record_enabled(r, kind_level(kind)),
        r.kind matches RecordKindView::Event { kind, .. } ==> (record_enabled(r, min_level) <==> level_rank(min_level)
            <= level_rank(kind_level(kind))),
        r.kind matches RecordKindView::Event { kind, .. } ==> !record_enabled(r, LogLevel::Off),
        r.kind is ScopeExit ==> record_enabled(r, min_level),
{
}

/// The file sink built for a configuration with file output on and a path
/// set writes to that path, in the configured format, at the configured
/// level, with timestamps and scope labels.
pub proof fn lemma_file_sink_follows_config(c: Config)
    requires
        c.file_enabled,
        c.file_path is Some,
    ensures
        plan_for(c).file matches Some(f) && f.path == c.file_path.unwrap() && f.style.format == c.file_format
            && f.level == c.file_level && f.style.show_timestamp && f.style.show_scope,
{
}

/// Switching to JSON-line file output plans, whenever it plans sinks at
/// all, a file sink at `path` that writes JSON lines; text file output
/// plans one that writes text.
pub proof fn lemma_file_output_format(v: RuntimeView, path: String, format: FileFormat)
    ensures
        configure_plan(v, with_file_output(v.config, path, format)) matches Some(p) ==> (p.file matches Some(f)
            && f.path == path && f.style.format == format),
        !unchanged_since_build(RuntimeView { config: with_file_output(v.config, path, format), ..v })
            ==> configure_plan(v, with_file_output(v.config, path, format)) is Some,
{
}

} // verus!
