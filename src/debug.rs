//! The debug report: per-line rule fires, capture spans and emitted records.
use vstd::prelude::*;
use vstd::utf8::{encode_utf8, is_char_boundary};
use crate::convert::Scalar;
use crate::records::Record;

verus! {

/// One capture of a rule fire, with its byte span in the line.
#[derive(Debug, Clone, PartialEq)]
pub struct CaptureSpan {
    pub name: String,
    pub start_byte: usize,
    pub end_byte: usize,
    pub raw: String,
    pub typed: Scalar,
    pub is_list: bool,
    /// Whether the span lies on character boundaries of the line.
    pub valid: bool,
}

/// One rule fire on one line.
#[derive(Debug, Clone, PartialEq)]
pub struct LineMatch {
    pub line_idx: usize,
    pub state_before: String,
    pub state_after: String,
    pub rule_idx: usize,
    pub line_action: String,
    pub record_action: String,
    pub next_state: Option<String>,
    pub captures: Vec<CaptureSpan>,
}

/// A record with the index of the line that caused its emission (the line
/// count for the end-of-input emission).
#[derive(Debug, Clone, PartialEq)]
pub struct EmittedRecord {
    pub line_idx: usize,
    pub record: Record,
}

/// What a trace event shows.
#[derive(Debug, Clone, Copy, PartialEq, Eq, Structural)]
pub enum TraceEventType {
    LineProcessed,
    StateChange,
    RecordEmitted,
    RecordCleared,
}

/// One step of the machine, for step-by-step tooling.
#[derive(Debug, Clone, PartialEq)]
pub struct TraceEvent {
    pub line_idx: usize,
    pub state_before: String,
    pub state_after: String,
    pub event_type: TraceEventType,
}

/// A replayable account of one parse.
#[derive(Debug, Clone, PartialEq)]
pub struct DebugReport {
    pub lines: Vec<String>,
    /// All rule fires, grouped by the input line they matched.
    pub matches_by_line: Vec<Vec<LineMatch>>,
    /// Records emitted during parsing, with the line that triggered emission.
    pub records: Vec<EmittedRecord>,
    pub trace: Vec<TraceEvent>,
}

/// A span is flagged valid exactly when its offsets are ordered and both are
/// character boundaries of the line (so within it), and a valid span slices
/// back to its text.
pub open spec fn span_ok(c: CaptureSpan, line: Seq<char>) -> bool {
    &&& c.valid == (c.start_byte <= c.end_byte && is_char_boundary(
        encode_utf8(line),
        c.start_byte as int,
    ) && is_char_boundary(encode_utf8(line), c.end_byte as int))
    &&& c.valid ==> encode_utf8(c.raw@) == encode_utf8(line).subrange(c.start_byte as int, c.end_byte as int)
}

/// Every valid span of the matches of a line slices back to its text.
pub open spec fn matches_ok(ms: Seq<LineMatch>, line: Seq<char>) -> bool {
    forall|a: int, b: int|
        0 <= a < ms.len() && 0 <= b < ms[a].captures@.len() ==> span_ok(
            #[trigger] ms[a].captures@[b],
            line,
        )
}

impl DebugReport {
    /// An empty report over `lines`: no matches on any line, no records.
    pub fn new(lines: Vec<String>) -> (r: Self)
        ensures
            r.lines@ == lines@,
            r.matches_by_line@.len() == lines@.len(),
            forall|i: int| 0 <= i < lines@.len() ==> (#[trigger] r.matches_by_line@[i])@.len() == 0,
            r.records@.len() == 0,
            r.trace@.len() == 0,
    {
        let mut m: Vec<Vec<LineMatch>> = Vec::new();
        let mut i: usize = 0;
        while i < lines.len()
            invariant
                i <= lines@.len(),
                m@.len() == i,
                forall|j: int| 0 <= j < i ==> (#[trigger] m@[j])@.len() == 0,
            decreases lines@.len() - i,
        {
            m.push(Vec::new());
            i = i + 1;
        }
        DebugReport { lines, matches_by_line: m, records: Vec::new(), trace: Vec::new() }
    }
}

} // verus!
