//! Trace stepping modes and event filters.
use vstd::prelude::*;
use crate::debug::TraceEventType;

verus! {

/// Which trace events a step moves between.
#[derive(Debug, Clone, Copy, PartialEq, Eq, Structural)]
pub enum SteppingMode {
    /// Every trace event.
    LineByLine,
    /// Only state transitions.
    StateByState,
    /// Only record and clear actions.
    ActionByAction,
}

/// Which kinds of trace event are shown.
#[derive(Debug, Clone, Copy, PartialEq, Eq, Structural)]
pub struct FilterState {
    pub show_line_events: bool,
    pub show_state_changes: bool,
    pub show_record_actions: bool,
    pub show_clear_actions: bool,
}

impl Default for FilterState {
    fn default() -> (r: Self)
        ensures
            r.show_line_events && r.show_state_changes && r.show_record_actions
                && r.show_clear_actions,
    {
        FilterState {
            show_line_events: true,
            show_state_changes: true,
            show_record_actions: true,
            show_clear_actions: true,
        }
    }
}

impl FilterState {
    /// Whether events of this type are shown.
    pub fn matches(&self, event_type: &TraceEventType) -> (r: bool)
        ensures
            r == match *event_type {
                TraceEventType::LineProcessed => self.show_line_events,
                TraceEventType::StateChange => self.show_state_changes,
                TraceEventType::RecordEmitted => self.show_record_actions,
                TraceEventType::RecordCleared => self.show_clear_actions,
            },
    {
        match event_type {
            TraceEventType::LineProcessed => self.show_line_events,
            TraceEventType::StateChange => self.show_state_changes,
            TraceEventType::RecordEmitted => self.show_record_actions,
            TraceEventType::RecordCleared => self.show_clear_actions,
        }
    }
}

} // verus!
