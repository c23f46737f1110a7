//! The part of the standard-output writer that decides what it writes.
use crate::base::record::Record;
use crate::base::scope::Scope;
use crate::render::timestamp::{local_timestamp_text, valid_offset};
use crate::render::{console_text, default_console_style, deref_scope, render_console, ConsoleStyle};
use vstd::prelude::*;

verus! {

/// A writer of console lines to standard output, in a console style.
#[derive(Debug, Clone, Copy)]
pub struct StdoutWriter {
    pub style: ConsoleStyle,
}

impl Default for StdoutWriter {
    fn default() -> (w: Self)
        ensures
            w.style == default_console_style(),
    {
        StdoutWriter::new()
    }
}

impl StdoutWriter {
    /// A writer in the default console style.
    pub fn new() -> (w: Self)
        ensures
            w.style == default_console_style(),
    {
        StdoutWriter { style: ConsoleStyle::default() }
    }

    /// A writer in `style`.
    pub fn with_style(style: ConsoleStyle) -> (w: Self)
        ensures
            w.style == style,
    {
        StdoutWriter { style }
    }

    /// The line to write for `record`, or `None` when its console line is
    /// empty (a scope exit the style hides). Timestamps, when shown, are in
    /// the local time of the machine.
    pub fn line_for(&self, record: &Record, scope: Option<&Scope>) -> (r: Option<String>)
        ensures
            exists|offset: Option<i32>|
                valid_offset(offset) && ({
                    let text = console_text(
                        record@,
                        deref_scope(scope),
                        self.style,
                        local_timestamp_text(record.time_ns, offset),
                    );
                    if text.len() == 0 {
                        r is None
                    } else {
                        r is Some && r.unwrap()@ == text
                    }
                }),
    {
        let line = render_console(record, scope, self.style);
        if line.as_str().unicode_len() == 0 {
            None
        } else {
            Some(line)
        }
    }
}

} // verus!
