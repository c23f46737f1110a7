//! eventline: an execution journal of scopes and events, with the views
//! over it (console, text and JSON lines, scope trees, summaries) and the
//! runtime state that decides what is recorded and what is shown.
pub mod base;
pub mod configure;
pub mod integrations;
pub mod journal;
pub mod render;
pub mod replay;
pub mod runtime;
pub mod seqs;
pub mod text;

pub use base::{EventKind, ExitMessages, FloatValue, Outcome, Record, RecordId, RecordKind, Scope, ScopeId, Value};
pub use configure::{FileSetup, Setup};
pub use journal::fields::Fields;
pub use journal::filter::{EventFilter, Filter, ScopeFilter};
pub use journal::rotation::LogPolicy;
pub use journal::writer::StdoutWriter;
pub use journal::{Journal, ScopeGuard};
pub use render::FileFormat;
pub use runtime::log_level::LogLevel;
pub use runtime::run_header::RunHeader;
pub use runtime::scope_stack::ScopeStack;
pub use runtime::{Runtime, RuntimeScopeGuard};
