use vstd::prelude::*;

verus! {

/// Semantic classification of a journal event.
#[derive(Debug, Copy, Clone, PartialEq, Eq, Structural)]
pub enum EventKind {
    Info,
    Warning,
    Error,
    Debug,
}

/// The name of an event kind as shown by `EventKind::as_str`.
pub open spec fn event_kind_name(kind: EventKind) -> Seq<char> {
    match kind {
        EventKind::Info => seq!['I', 'n', 'f', 'o'],
        EventKind::Warning => seq!['W', 'a', 'r', 'n'],
        EventKind::Error => seq!['E', 'r', 'r', 'o', 'r'],
        EventKind::Debug => seq!['D', 'e', 'b', 'u', 'g'],
    }
}

impl EventKind {
    /// The kind's name.
    pub fn as_str(self) -> (s: &'static str)
        ensures
            s@ == event_kind_name(self),
    {
        match self {
            EventKind::Info => {
                let s = "Info";
                proof { reveal_strlit("Info"); }
                s
            },
            EventKind::Warning => {
                let s = "Warn";
                proof { reveal_strlit("Warn"); }
                s
            },
            EventKind::Error => {
                let s = "Error";
                proof { reveal_strlit("Error"); }
                s
            },
            EventKind::Debug => {
                let s = "Debug";
                proof { reveal_strlit("Debug"); }
                s
            },
        }
    }
}

} // verus!
