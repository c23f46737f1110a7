//! Scopes: named, nested units of work with an entry time, an exit time once
//! they are finalized, and optional per-outcome exit messages.
use super::id::ScopeId;
use super::outcome::Outcome;
use crate::journal::utils::current_millis;
use vstd::prelude::*;

verus! {

/// Optional per-outcome exit messages for a scope, used only when rendering
/// the scope's exit line.
#[derive(Debug)]
pub struct ExitMessages {
    pub success: Option<String>,
    pub failure: Option<String>,
    pub aborted: Option<String>,
}

/// Clones an optional string.
pub fn clone_opt_string(s: &Option<String>) -> (r: Option<String>)
    ensures
        r == *s,
{
    match s {
        Some(t) => Some(t.clone()),
        None => None,
    }
}

impl Clone for ExitMessages {
    fn clone(&self) -> (r: Self)
        ensures
            r == *self,
    {
        ExitMessages {
            success: clone_opt_string(&self.success),
            failure: clone_opt_string(&self.failure),
            aborted: clone_opt_string(&self.aborted),
        }
    }
}

/// Exit messages with no message for any outcome.
pub open spec fn no_exit_messages() -> ExitMessages {
    ExitMessages { success: None, failure: None, aborted: None }
}

impl Default for ExitMessages {
    fn default() -> (m: Self)
        ensures
            m == no_exit_messages(),
    {
        ExitMessages { success: None, failure: None, aborted: None }
    }
}

/// A journal scope, representing a logical unit of work.
#[derive(Debug)]
pub struct Scope {
    /// Unique identifier for this scope.
    pub id: ScopeId,
    /// Optional parent scope, allowing nested scopes.
    pub parent: Option<ScopeId>,
    /// Milliseconds since the Unix epoch when the scope was entered.
    pub entered_at: u64,
    /// Optional human-readable name for the scope.
    pub name: Option<String>,
    /// Milliseconds since the Unix epoch when the scope was exited.
    pub exited_at: Option<u64>,
    /// Optional per-outcome exit-line messages.
    pub exit_messages: ExitMessages,
}

impl Clone for Scope {
    fn clone(&self) -> (r: Self)
        ensures
            r == *self,
    {
        Scope {
            id: self.id,
            parent: self.parent,
            entered_at: self.entered_at,
            name: clone_opt_string(&self.name),
            exited_at: self.exited_at,
            exit_messages: self.exit_messages.clone(),
        }
    }
}

/// `a - b`, or 0 when `b > a`.
pub open spec fn sat_sub(a: u64, b: u64) -> u64 {
    if a >= b {
        (a - b) as u64
    } else {
        0
    }
}

/// Milliseconds from entry to exit, or to `now_ms` while the scope is open.
pub open spec fn scope_elapsed_ms(s: Scope, now_ms: u64) -> u64 {
    match s.exited_at {
        Some(e) => sat_sub(e, s.entered_at),
        None => sat_sub(now_ms, s.entered_at),
    }
}

/// The configured exit message for an outcome.
pub open spec fn exit_message_of(m: ExitMessages, outcome: Outcome) -> Option<String> {
    match outcome {
        Outcome::Success => m.success,
        Outcome::Failure => m.failure,
        Outcome::Aborted => m.aborted,
    }
}

impl Scope {
    /// Milliseconds from entry to exit, measuring an open scope up to `now_ms`.
    pub fn elapsed_at(&self, now_ms: u64) -> (ms: u64)
        ensures
            ms == scope_elapsed_ms(*self, now_ms),
    {
        let end = match self.exited_at {
            Some(e) => e,
            None => now_ms,
        };
        end.saturating_sub(self.entered_at)
    }

    /// Milliseconds from entry to exit; an open scope is measured up to the
    /// current time.
    pub fn elapsed(&self) -> (ms: u64)
        ensures
            self.exited_at is Some ==> ms == scope_elapsed_ms(*self, 0),
            exists|now_ms: u64| ms == scope_elapsed_ms(*self, now_ms),
    {
        match self.exited_at {
            Some(_) => self.elapsed_at(0),
            None => {
                let now = current_millis();
                self.elapsed_at(now)
            },
        }
    }

    /// Set per-outcome exit messages (fluent).
    pub fn with_exit_messages(
        self,
        success: Option<String>,
        failure: Option<String>,
        aborted: Option<String>,
    ) -> (r: Self)
        ensures
            r == (Scope { exit_messages: ExitMessages { success, failure, aborted }, ..self }),
    {
        let mut s = self;
        s.exit_messages.success = success;
        s.exit_messages.failure = failure;
        s.exit_messages.aborted = aborted;
        s
    }

    /// The exit message configured for `outcome`, if any.
    pub fn exit_message_for(&self, outcome: Outcome) -> (r: Option<&str>)
        ensures
            match exit_message_of(self.exit_messages, outcome) {
                Some(m) => r is Some && r.unwrap()@ == m@,
                None => r is None,
            },
    {
        let m = match outcome {
            Outcome::Success => &self.exit_messages.success,
            Outcome::Failure => &self.exit_messages.failure,
            Outcome::Aborted => &self.exit_messages.aborted,
        };
        match m {
            Some(s) => Some(s.as_str()),
            None => None,
        }
    }
}

} // verus!
