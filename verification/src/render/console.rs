//! Console switches and the plain lines that live console output prints.
use crate::base::event_kind::EventKind;
use crate::render::canonical::{bullet_for, kind_label, kind_label_text, platform_bullet};
use crate::text::{push_repeat, push_str, repeat_char};
use vstd::prelude::*;

verus! {

/// Whether events go to the console, and whether in colour.
#[derive(Debug, Clone, Copy)]
pub struct ConsoleFlags {
    pub enabled: bool,
    pub color: bool,
}

/// A line for the console and the stream it belongs on.
#[derive(Debug)]
pub struct ConsoleLine {
    pub text: String,
    pub to_stderr: bool,
}

impl Default for ConsoleFlags {
    fn default() -> (f: Self)
        ensures
            !f.enabled,
            f.color,
    {
        ConsoleFlags::new()
    }
}

impl ConsoleFlags {
    /// Console output off, colour on.
    pub fn new() -> (f: Self)
        ensures
            !f.enabled,
            f.color,
    {
        ConsoleFlags { enabled: false, color: true }
    }

    /// Turns console output on or off.
    pub fn enable_console_output(&mut self, enable: bool)
        ensures
            final(self).enabled == enable,
            final(self).color == old(self).color,
    {
        self.enabled = enable;
    }

    /// Whether console output is on.
    pub fn is_console_enabled(&self) -> (b: bool)
        ensures
            b == self.enabled,
    {
        self.enabled
    }

    /// Turns colour on or off.
    pub fn enable_console_color(&mut self, enable: bool)
        ensures
            final(self).color == enable,
            final(self).enabled == old(self).enabled,
    {
        self.color = enable;
    }

    /// Whether colour is on.
    pub fn is_console_color_enabled(&self) -> (b: bool)
        ensures
            b == self.color,
    {
        self.color
    }
}

/// The plain console line of an unscoped event: the message, after
/// `debug: `, `warning: ` or `error: ` for those kinds.
pub open spec fn plain_event_text(kind: EventKind, message: Seq<char>) -> Seq<char> {
    match kind {
        EventKind::Debug => "debug: "@ + message,
        EventKind::Info => message,
        EventKind::Warning => "warning: "@ + message,
        EventKind::Error => "error: "@ + message,
    }
}

/// The plain console line of an unscoped event; errors go to standard
/// error, the rest to standard output.
pub fn event_line(kind: EventKind, message: &str) -> (l: ConsoleLine)
    ensures
        l.text@ == plain_event_text(kind, message@),
        l.to_stderr == (kind == EventKind::Error),
{
    let mut text = String::new();
    match kind {
        EventKind::Debug => push_str(&mut text, "debug: "),
        EventKind::Info => {},
        EventKind::Warning => push_str(&mut text, "warning: "),
        EventKind::Error => push_str(&mut text, "error: "),
    }
    push_str(&mut text, message);
    assert(text@ =~= plain_event_text(kind, message@));
    ConsoleLine { text, to_stderr: kind == EventKind::Error }
}

/// The line of an event inside a scope: two spaces per level, the
/// platform's bullet, the padded kind label and the message.
pub open spec fn scoped_event_text(kind: EventKind, message: Seq<char>, indent_level: nat, windows: bool) -> Seq<char> {
    repeat_char(' ', 2 * indent_level) + platform_bullet(windows) + " "@ + kind_label_text(kind) + " "@ + message
}

/// The console line of an event inside a scope, at `indent_level`, with
/// the bullet of the platform (`windows` or not).
pub fn scoped_event_line(kind: EventKind, message: &str, indent_level: usize, windows: bool) -> (l: ConsoleLine)
    requires
        2 * indent_level <= usize::MAX,
    ensures
        l.text@ == scoped_event_text(kind, message@, indent_level as nat, windows),
        l.to_stderr == (kind == EventKind::Error),
{
    let mut text = String::new();
    push_repeat(&mut text, ' ', 2 * indent_level);
    push_str(&mut text, bullet_for(windows));
    push_str(&mut text, " ");
    push_str(&mut text, kind_label(kind));
    push_str(&mut text, " ");
    push_str(&mut text, message);
    assert(text@ =~= scoped_event_text(kind, message@, indent_level as nat, windows));
    ConsoleLine { text, to_stderr: kind == EventKind::Error }
}

} // verus!
