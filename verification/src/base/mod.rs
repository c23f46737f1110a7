pub mod event_kind;
pub mod id;
pub mod outcome;
pub mod record;
pub mod scope;
pub mod value;

pub use event_kind::EventKind;
pub use id::{RecordId, ScopeId};
pub use outcome::Outcome;
pub use record::{Record, RecordKind};
pub use scope::{ExitMessages, Scope};
pub use value::{FloatValue, Value};
