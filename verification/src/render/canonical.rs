//! The canonical narrative format: scope headers and bulleted event lines.
//!
//! A scope header reads `[date time] Scope name (id=N) → Outcome (Nms)`, an
//! event line `  • warning   message`, with the kind label padded to a
//! fixed width so that messages line up.
use crate::base::event_kind::EventKind;
use crate::base::id::ScopeId;
use crate::base::outcome::Outcome;
use crate::base::record::{Record, RecordKind};
use crate::base::scope::Scope;
use crate::journal::filter::{duration_ms_in, duration_ms_of_scope, outcome_in, outcome_of_scope};
use crate::journal::utils::{is_local_stamp, millis_to_local};
use crate::journal::Journal;
use crate::text::{dec, push_decimal, push_repeat, push_str, repeat_char};
use vstd::prelude::*;

verus! {

/// An event rendered as a line, with an optional detail line under it.
#[derive(Debug)]
pub struct RenderedEvent {
    pub main: String,
    pub detail: Option<String>,
}

/// A scope rendered as its header line.
#[derive(Debug)]
pub struct RenderedScope {
    pub header: String,
}

/// Preferences for the canonical format.
#[derive(Debug)]
pub struct RenderConfig {
    /// Colour codes are wanted (this build writes plain text either way).
    pub color: bool,
    /// Scope headers start with the local date and time the scope began.
    pub timestamps: bool,
    /// The bullet in front of each event.
    pub bullet: String,
    /// Spaces per indent level.
    pub indent_size: usize,
}

/// The event bullet of a platform: `*` on Windows, `•` elsewhere.
pub open spec fn platform_bullet(windows: bool) -> Seq<char> {
    if windows {
        "*"@
    } else {
        "•"@
    }
}

/// The event bullet of a platform: `*` on Windows, `•` elsewhere.
pub fn bullet_for(windows: bool) -> (s: &'static str)
    ensures
        s@ == platform_bullet(windows),
{
    if windows {
        "*"
    } else {
        "•"
    }
}

/// The default configuration, except for `color` and `timestamps`, with
/// the bullet of a platform other than Windows.
pub open spec fn config_with(c: RenderConfig, color: bool, timestamps: bool) -> bool {
    &&& c.color == color
    &&& c.timestamps == timestamps
    &&& c.bullet@ == "•"@
    &&& c.indent_size == 2
}

impl Default for RenderConfig {
    fn default() -> (c: Self)
        ensures
            config_with(c, true, true),
    {
        RenderConfig { color: true, timestamps: true, bullet: String::from_str("•"), indent_size: 2 }
    }
}

impl Clone for RenderConfig {
    fn clone(&self) -> (c: Self)
        ensures
            c == *self,
    {
        RenderConfig {
            color: self.color,
            timestamps: self.timestamps,
            bullet: self.bullet.clone(),
            indent_size: self.indent_size,
        }
    }
}

impl RenderConfig {
    /// The default configuration for a platform: colour, timestamps, two
    /// spaces per level and the platform's bullet. `Default` gives the
    /// configuration of platforms other than Windows.
    pub fn for_platform(windows: bool) -> (c: Self)
        ensures
            c.color,
            c.timestamps,
            c.bullet@ == platform_bullet(windows),
            c.indent_size == 2,
    {
        RenderConfig { color: true, timestamps: true, bullet: String::from_str(bullet_for(windows)), indent_size: 2 }
    }

    /// The default configuration without colour.
    pub fn no_color() -> (c: Self)
        ensures
            config_with(c, false, true),
    {
        RenderConfig { color: false, ..Default::default() }
    }

    /// The default configuration without timestamps.
    pub fn no_timestamps() -> (c: Self)
        ensures
            config_with(c, true, false),
    {
        RenderConfig { timestamps: false, ..Default::default() }
    }
}

/// The kind label, padded to nine characters.
pub open spec fn kind_label_text(kind: EventKind) -> Seq<char> {
    match kind {
        EventKind::Info => "info     "@,
        EventKind::Warning => "warning  "@,
        EventKind::Error => "error    "@,
        EventKind::Debug => "debug    "@,
    }
}

pub(crate) fn kind_label(kind: EventKind) -> (s: &'static str)
    ensures
        s@ == kind_label_text(kind),
{
    match kind {
        EventKind::Info => "info     ",
        EventKind::Warning => "warning  ",
        EventKind::Error => "error    ",
        EventKind::Debug => "debug    ",
    }
}

/// An event line: `indent` spaces, the bullet, the kind label and the
/// message.
pub open spec fn event_line_parts(bullet: Seq<char>, indent: nat, kind: EventKind, message: Seq<char>) -> Seq<char> {
    repeat_char(' ', indent) + bullet + " "@ + kind_label_text(kind) + " "@ + message
}

/// An event line under `config` at `indent_level`.
pub open spec fn event_line_text(config: RenderConfig, indent_level: nat, kind: EventKind, message: Seq<char>) -> Seq<char> {
    event_line_parts(config.bullet@, (config.indent_size * indent_level) as nat, kind, message)
}

/// Renders an event record at `indent_level`; a scope-exit record gives
/// `None`. No detail line is rendered: it would only repeat the message.
pub fn render_event(record: &Record, config: &RenderConfig, indent_level: usize) -> (r: Option<RenderedEvent>)
    requires
        config.indent_size * indent_level <= usize::MAX,
    ensures
        match record.kind {
            RecordKind::Event { kind, name, .. } => r is Some && r.unwrap().main@ == event_line_text(
                *config,
                indent_level as nat,
                kind,
                name@,
            ) && r.unwrap().detail is None,
            RecordKind::ScopeExit { .. } => r is None,
        },
{
    match &record.kind {
        RecordKind::Event { kind, name, .. } => {
            let mut main = String::new();
            push_repeat(&mut main, ' ', config.indent_size * indent_level);
            push_str(&mut main, config.bullet.as_str());
            push_str(&mut main, " ");
            push_str(&mut main, kind_label(*kind));
            push_str(&mut main, " ");
            push_str(&mut main, name.as_str());
            assert(main@ =~= event_line_text(*config, indent_level as nat, *kind, name@));
            Some(RenderedEvent { main, detail: None })
        },
        RecordKind::ScopeExit { .. } => None,
    }
}

/// An outcome as `{:?}` writes it.
pub open spec fn outcome_name(o: Outcome) -> Seq<char> {
    match o {
        Outcome::Success => "Success"@,
        Outcome::Failure => "Failure"@,
        Outcome::Aborted => "Aborted"@,
    }
}

pub(crate) fn outcome_label(o: Outcome) -> (s: &'static str)
    ensures
        s@ == outcome_name(o),
{
    match o {
        Outcome::Success => "Success",
        Outcome::Failure => "Failure",
        Outcome::Aborted => "Aborted",
    }
}

/// A scope's name, or `unnamed`.
pub open spec fn name_or_unnamed(name: Option<String>) -> Seq<char> {
    match name {
        Some(n) => n@,
        None => "unnamed"@,
    }
}

/// A scope header: `Scope name (id=N) → Outcome (Nms)`, after
/// `[timestamp] ` when there is one.
pub open spec fn header_text(
    name: Option<String>,
    id: ScopeId,
    outcome: Outcome,
    duration_ms: u64,
    timestamp: Option<Seq<char>>,
) -> Seq<char> {
    let body = "Scope "@ + name_or_unnamed(name) + " (id="@ + dec(id.0 as nat) + ") → "@ + outcome_name(outcome)
        + " ("@ + dec(duration_ms as nat) + "ms)"@;
    match timestamp {
        Some(t) => "["@ + t + "] "@ + body,
        None => body,
    }
}

/// The view of an optional string slice.
pub open spec fn opt_str_view(s: Option<&str>) -> Option<Seq<char>> {
    match s {
        Some(t) => Some(t@),
        None => None,
    }
}

/// The header of `scope` with the given outcome, duration and timestamp.
pub fn scope_header(scope: &Scope, outcome: Outcome, duration_ms: u64, timestamp: Option<&str>) -> (r: RenderedScope)
    ensures
        r.header@ == header_text(scope.name, scope.id, outcome, duration_ms, opt_str_view(timestamp)),
{
    let mut h = String::new();
    match timestamp {
        Some(t) => {
            push_str(&mut h, "[");
            push_str(&mut h, t);
            push_str(&mut h, "] ");
        },
        None => {},
    }
    push_str(&mut h, "Scope ");
    match &scope.name {
        Some(n) => push_str(&mut h, n.as_str()),
        None => push_str(&mut h, "unnamed"),
    }
    push_str(&mut h, " (id=");
    push_decimal(&mut h, scope.id.0);
    push_str(&mut h, ") → ");
    push_str(&mut h, outcome_label(outcome));
    push_str(&mut h, " (");
    push_decimal(&mut h, duration_ms);
    push_str(&mut h, "ms)");
    assert(h@ =~= header_text(scope.name, scope.id, outcome, duration_ms, opt_str_view(timestamp)));
    RenderedScope { header: h }
}

/// Renders the header of `scope` with the outcome and duration of its
/// first exit record in `journal` (`Aborted` and 0 ms without one). With
/// timestamps on, the header starts with the scope's start in local time,
/// as the machine's time zone gives it.
pub fn render_scope_header(journal: &Journal, scope: &Scope, config: &RenderConfig) -> (r: RenderedScope)
    ensures
        config.timestamps ==> exists|t: Seq<char>|
            is_local_stamp(scope.entered_at, t) && r.header@ == header_text(
                scope.name,
                scope.id,
                outcome_in(journal@.records, scope.id),
                duration_ms_in(journal@.records, scope.id),
                Some(t),
            ),
        !config.timestamps ==> r.header@ == header_text(
            scope.name,
            scope.id,
            outcome_in(journal@.records, scope.id),
            duration_ms_in(journal@.records, scope.id),
            None,
        ),
{
    let records = journal.records();
    let outcome = outcome_of_scope(&records, scope.id);
    let duration_ms = duration_ms_of_scope(&records, scope.id);
    if config.timestamps {
        let ts = millis_to_local(scope.entered_at);
        scope_header(scope, outcome, duration_ms, Some(ts.as_str()))
    } else {
        scope_header(scope, outcome, duration_ms, None)
    }
}

} // verus!
