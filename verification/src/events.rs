//! Classification of worker output lines.  Every line the worker emits is
//! surfaced as exactly one event: a structured record with a string
//! discriminant, a structured record without one, or — when structured
//! parsing fails — the raw line itself, never silently dropped.  The end
//! of the worker's output is surfaced as a terminal event of its own.

use vstd::prelude::*;

verus! {

/// One inbound event: a classified worker output line, or a terminal
/// notice about the output stream.
pub enum WorkerEvent {
    /// A structured line whose discriminant field holds a string.
    Typed { topic: String, line: String },
    /// A structured line without a string discriminant.
    Untyped { line: String },
    /// A line that does not parse as a structured record, surfaced raw.
    Raw { line: String },
    /// The worker closed its output stream: it has exited.
    Exited,
    /// The output stream failed in some way other than a clean end.
    ReadFailed { message: String },
}

/// The mathematical value of a `WorkerEvent`.
pub enum WorkerEventValue {
    Typed { topic: Seq<char>, line: Seq<char> },
    Untyped { line: Seq<char> },
    Raw { line: Seq<char> },
    Exited,
    ReadFailed { message: Seq<char> },
}

impl View for WorkerEvent {
    type V = WorkerEventValue;

    open spec fn view(&self) -> WorkerEventValue {
        match self {
            WorkerEvent::Typed { topic, line } => WorkerEventValue::Typed {
                topic: topic@,
                line: line@,
            },
            WorkerEvent::Untyped { line } => WorkerEventValue::Untyped { line: line@ },
            WorkerEvent::Raw { line } => WorkerEventValue::Raw { line: line@ },
            WorkerEvent::Exited => WorkerEventValue::Exited,
            WorkerEvent::ReadFailed { message } => WorkerEventValue::ReadFailed {
                message: message@,
            },
        }
    }
}

impl WorkerEvent {
    /// A copy with the same mathematical value.
    pub fn duplicate(&self) -> (r: WorkerEvent)
        ensures
            r@ == self@,
    {
        match self {
            WorkerEvent::Typed { topic, line } => WorkerEvent::Typed {
                topic: topic.clone(),
                line: line.clone(),
            },
            WorkerEvent::Untyped { line } => WorkerEvent::Untyped { line: line.clone() },
            WorkerEvent::Raw { line } => WorkerEvent::Raw { line: line.clone() },
            WorkerEvent::Exited => WorkerEvent::Exited,
            WorkerEvent::ReadFailed { message } => WorkerEvent::ReadFailed {
                message: message.clone(),
            },
        }
    }
}

/// Whether a line parses as a structured record: the result of
/// `serde_json::from_str::<serde_json::Value>` on the line's text, a
/// function of the line alone.
pub uninterp spec fn parses_as_record(line: Seq<char>) -> bool;

/// The entry of the parsed record under the given key, when the line
/// parses and that entry holds a string; `None` otherwise.  Names the
/// combined result of `serde_json::Value::get` and
/// `serde_json::Value::as_str`, a function of the two texts alone.
pub uninterp spec fn record_field_str(line: Seq<char>, field: Seq<char>) -> Option<Seq<char>>;

/// The mathematical value of an optional text.
pub open spec fn opt_text_value(o: Option<String>) -> Option<Seq<char>> {
    match o {
        Some(s) => Some(s@),
        None => None,
    }
}

/// Relies on `serde_json::from_str::<serde_json::Value>` for whether the
/// line is a well-formed structured record, and on `serde_json::Value::get`
/// and `serde_json::Value::as_str` for the record's entry under the given
/// key when that entry is a string.  All three are deterministic in their
/// arguments, so the outcome is a function of the two texts alone.
#[verifier::external_body]
fn probe_record(line: &str, field: &str) -> (r: Option<Option<String>>)
    ensures
        r is Some <==> parses_as_record(line@),
        r matches Some(d) ==> opt_text_value(d) == record_field_str(line@, field@),
{
    match serde_json::from_str::<serde_json::Value>(line) {
        Ok(v) => match v.get(field) {
            Some(entry) => match entry.as_str() {
                Some(s) => Some(Some(s.to_string())),
                None => Some(None),
            },
            None => Some(None),
        },
        Err(_) => None,
    }
}

/// The discriminant field of the wire protocol: the record entry that
/// names an event's topic.
pub open spec fn discriminant_field() -> Seq<char> {
    "type"@
}

/// How one worker output line is classified.
pub open spec fn classify_view(l: Seq<char>) -> WorkerEventValue {
    if parses_as_record(l) {
        match record_field_str(l, discriminant_field()) {
            Some(t) => WorkerEventValue::Typed { topic: t, line: l },
            None => WorkerEventValue::Untyped { line: l },
        }
    } else {
        WorkerEventValue::Raw { line: l }
    }
}

/// Classify one worker output line.  A parsed record with a string
/// discriminant is typed by it; a parsed record without one is a generic
/// event; anything else is surfaced as a raw event, never dropped.
pub fn classify_line(line: String) -> (ev: WorkerEvent)
    ensures
        ev@ == classify_view(line@),
{
    match probe_record(line.as_str(), "type") {
        Some(Some(t)) => WorkerEvent::Typed { topic: t, line },
        Some(None) => WorkerEvent::Untyped { line },
        None => WorkerEvent::Raw { line },
    }
}

/// The terminal event for the end of the worker's output: a clean end of
/// stream means the worker exited; anything else is a read failure, kept
/// distinguishable from a clean end.
pub open spec fn end_event_view(failure: Option<Seq<char>>) -> WorkerEventValue {
    match failure {
        None => WorkerEventValue::Exited,
        Some(m) => WorkerEventValue::ReadFailed { message: m },
    }
}

/// The terminal event itself.
pub fn end_event(failure: Option<String>) -> (ev: WorkerEvent)
    ensures
        ev@ == end_event_view(opt_text_value(failure)),
{
    match failure {
        None => WorkerEvent::Exited,
        Some(m) => WorkerEvent::ReadFailed { message: m },
    }
}

} // verus!
