//! One-call setup of the runtime: console, level and file output.
use crate::journal::rotation::LogPolicy;
use crate::runtime::log_level::{LevelThresholds, LogLevel};
use crate::runtime::run_header::RunHeader;
use crate::runtime::{
    after_configure, after_rebuild, configure_plan, disable_file_output, enable_console_output,
    enable_file_output, enable_file_output_rotating, init_sync, rebuild_plan, set_output_level, with_file_output,
    with_rotating_output, without_file_output, Runtime, RuntimeView, WriterPlan,
};
use crate::render::FileFormat;
use crate::runtime::config::Config;
use vstd::prelude::*;

verus! {

/// Start-up configuration of the runtime.
#[derive(Debug)]
pub struct Setup {
    /// Console output on, and `Debug` as the default level; otherwise
    /// console output off and `Info`.
    pub verbose: bool,
    /// The level to use, whatever `verbose` says.
    pub level: Option<LogLevel>,
    /// File output to set up; `None` leaves it as it is.
    pub file: Option<FileSetup>,
}

/// How file output is set up.
#[derive(Debug)]
pub enum FileSetup {
    /// No file output.
    Off,
    /// Text lines appended to `path`.
    Plain { path: String },
    /// Text lines appended to `path`, rotated under `policy`; `header`, when
    /// given, is written to the file first.
    Rotating { path: String, policy: LogPolicy, header: Option<RunHeader> },
}

/// The level a setup asks for: the explicit one, else `Debug` when verbose
/// and `Info` otherwise.
pub open spec fn setup_level_of(verbose: bool, level: Option<LogLevel>) -> LogLevel {
    match level {
        Some(l) => l,
        None => if verbose {
            LogLevel::Debug
        } else {
            LogLevel::Info
        },
    }
}

/// The level `s` asks for.
pub fn setup_level(s: &Setup) -> (l: LogLevel)
    ensures
        l == setup_level_of(s.verbose, s.level),
{
    match s.level {
        Some(l) => l,
        None => if s.verbose {
            LogLevel::Debug
        } else {
            LogLevel::Info
        },
    }
}

/// The configuration a file setup gives, from `c`.
pub open spec fn config_for_file(c: Config, file: FileSetup) -> Config {
    match file {
        FileSetup::Off => without_file_output(c),
        FileSetup::Plain { path } => with_file_output(c, path, FileFormat::Text),
        FileSetup::Rotating { path, policy, .. } => with_rotating_output(c, path, policy),
    }
}

/// The state before the file step: sinks initialised, console output set
/// from `verbose`, and the output threshold set to the setup's level.
pub open spec fn before_file_step(v: RuntimeView, verbose: bool, level: Option<LogLevel>) -> RuntimeView {
    let v1 = after_rebuild(v);
    let v2 = after_configure(v1, Config { console_enabled: verbose, ..v1.config });
    RuntimeView { levels: LevelThresholds { log: setup_level_of(verbose, level), ..v2.levels }, ..v2 }
}

/// The state after a setup.
pub open spec fn after_setup(v: RuntimeView, verbose: bool, level: Option<LogLevel>, file: Option<FileSetup>) -> RuntimeView {
    let v3 = before_file_step(v, verbose, level);
    match file {
        None => v3,
        Some(f) => after_configure(v3, config_for_file(v3.config, f)),
    }
}

/// The later of two plans: a rebuild replaces the sinks of an earlier one.
pub open spec fn later_plan(first: Option<WriterPlan>, second: Option<WriterPlan>) -> Option<WriterPlan> {
    match second {
        Some(p) => Some(p),
        None => first,
    }
}

/// The sinks to build after a setup, if they change.
pub open spec fn setup_plan(v: RuntimeView, verbose: bool, level: Option<LogLevel>, file: Option<FileSetup>) -> Option<WriterPlan> {
    let v1 = after_rebuild(v);
    let p1 = rebuild_plan(v);
    let p2 = configure_plan(v1, Config { console_enabled: verbose, ..v1.config });
    let v3 = before_file_step(v, verbose, level);
    let p3 = match file {
        None => None,
        Some(f) => configure_plan(v3, config_for_file(v3.config, f)),
    };
    later_plan(later_plan(p1, p2), p3)
}

/// Apply `s`: initialise the sinks, turn console output on or off with
/// `verbose`, set the output threshold to the setup's level, then apply the
/// file setup. Returns the sinks to build, if they change. Preparing a
/// rotating file (rotation at open, run header) is the caller's part.
pub fn apply_setup(rt: &mut Runtime, s: Setup) -> (plan: Option<WriterPlan>)
    ensures
        final(rt)@ == after_setup(old(rt)@, s.verbose, s.level, s.file),
        plan == setup_plan(old(rt)@, s.verbose, s.level, s.file),
{
    let level = setup_level(&s);
    let p1 = init_sync(rt);
    let p2 = enable_console_output(rt, s.verbose);
    set_output_level(rt, level);
    let p3 = match s.file {
        None => None,
        Some(FileSetup::Off) => disable_file_output(rt),
        Some(FileSetup::Plain { path }) => enable_file_output(rt, path),
        Some(FileSetup::Rotating { path, policy, .. }) => enable_file_output_rotating(rt, path, policy),
    };
    let p12 = match p2 {
        Some(p) => Some(p),
        None => p1,
    };
    match p3 {
        Some(p) => Some(p),
        None => p12,
    }
}

} // verus!
