//! The debugger's screen state and navigation.
use vstd::prelude::*;
use crate::debug::{DebugReport, TraceEventType};
use crate::text::{lit, str_eq};
use crate::tui::editor::EditorState;
use crate::tui::picker::PickerState;
use crate::tui::trace::{FilterState, SteppingMode};

verus! {

#[derive(Debug, Clone, Copy, PartialEq, Eq, Structural)]
pub enum ParseStatus {
    Parsing,
    Done,
    Error,
    Idle,
}

#[derive(Debug, Clone, Copy, PartialEq, Eq, Structural)]
pub enum ViewMode {
    Matches,
    Records,
}

#[derive(Debug, Clone, Copy, PartialEq, Eq, Structural)]
pub enum Mode {
    Picker,
    Browse,
    EditTemplate,
}

/// Everything the debugger shows and where its cursors are.
#[derive(Debug, Clone)]
pub struct AppState {
    pub template_path: Option<String>,
    pub input_path: Option<String>,
    pub lines: Vec<String>,
    pub cursor_line_idx: usize,
    pub selected_match_idx: usize,
    pub view_mode: ViewMode,
    pub selected_record_idx: usize,
    pub last_good: Option<DebugReport>,
    pub current_error: Option<String>,
    pub status: ParseStatus,
    pub mode: Mode,
    pub editor: Option<EditorState>,
    pub picker: Option<PickerState>,
    pub trace_index: usize,
    pub stepping_mode: SteppingMode,
    pub filter_state: FilterState,
    pub watch_list: Vec<String>,
}

/// `v` limited to the last index of a sequence of `len` items (0 when empty).
pub open spec fn clamp_to(v: nat, len: nat) -> nat {
    if len == 0 {
        0
    } else if v < len {
        v
    } else {
        (len - 1) as nat
    }
}

pub open spec fn dist(a: nat, b: nat) -> nat {
    if a > b {
        (a - b) as nat
    } else {
        (b - a) as nat
    }
}

/// Whether trace event `i` of `r` is one that stepping in `mode` stops at.
pub open spec fn is_stop(r: DebugReport, i: int, mode: SteppingMode) -> bool {
    match mode {
        SteppingMode::LineByLine => true,
        SteppingMode::StateByState => r.trace@[i].state_before@ != r.trace@[i].state_after@,
        SteppingMode::ActionByAction => r.trace@[i].event_type == TraceEventType::RecordEmitted
            || r.trace@[i].event_type == TraceEventType::RecordCleared,
    }
}

fn clamp_exec(v: usize, len: usize) -> (r: usize)
    ensures
        r == clamp_to(v as nat, len as nat),
{
    if len == 0 {
        0
    } else if v < len {
        v
    } else {
        len - 1
    }
}

impl AppState {
    /// A fresh debugger for the given files; it starts in the picker unless
    /// both are known.
    pub fn new(template_path: Option<String>, input_path: Option<String>) -> (r: Self)
        ensures
            r.mode == (if template_path is None || input_path is None {
                Mode::Picker
            } else {
                Mode::Browse
            }),
            r.status == ParseStatus::Idle,
            r.lines@.len() == 4,
            r.cursor_line_idx == 0,
            r.last_good is None,
            r.watch_list@.len() == 0,
    {
        let mut lines: Vec<String> = Vec::new();
        lines.push(lit("cliscrape debug"));
        lines.push(lit(""));
        lines.push(lit("Usage:"));
        lines.push(lit("  cliscrape debug --template <PATH> --input <PATH>"));
        let mode = if template_path.is_none() || input_path.is_none() {
            Mode::Picker
        } else {
            Mode::Browse
        };
        AppState {
            template_path,
            input_path,
            lines,
            cursor_line_idx: 0,
            selected_match_idx: 0,
            view_mode: ViewMode::Matches,
            selected_record_idx: 0,
            last_good: None,
            current_error: None,
            status: ParseStatus::Idle,
            mode,
            editor: None,
            picker: None,
            trace_index: 0,
            stepping_mode: SteppingMode::LineByLine,
            filter_state: FilterState::default(),
            watch_list: Vec::new(),
        }
    }

    /// Opens the template editor on `opened`, the outcome of reading the
    /// template file; without a template path it reports that instead.
    pub fn enter_edit_template(&mut self, opened: Result<EditorState, String>)
        ensures
            old(self).template_path is None ==> final(self).mode == old(self).mode
                && final(self).current_error is Some,
            old(self).template_path is Some && opened is Ok ==> final(self).mode
                == Mode::EditTemplate && final(self).current_error is None && final(self).editor
                is Some,
            old(self).template_path is Some && opened is Err ==> final(self).mode == old(self).mode && final(self).current_error == Some(opened->Err_0),
    {
        if self.template_path.is_none() {
            self.current_error = Some(lit("no template path set"));
            return;
        }
        match opened {
            Ok(ed) => {
                self.editor = Some(ed);
                self.mode = Mode::EditTemplate;
                self.current_error = None;
            },
            Err(e) => {
                self.current_error = Some(e);
            },
        }
    }

    pub fn exit_edit_template(&mut self)
        ensures
            final(self).mode == Mode::Browse,
    {
        self.mode = Mode::Browse;
    }

    pub fn on_parse_started(&mut self)
        ensures
            final(self).status == ParseStatus::Parsing,
    {
        self.status = ParseStatus::Parsing;
    }

    /// Shows a new report; the cursors are kept where they still fit.
    pub fn on_parse_done(&mut self, report: DebugReport)
        ensures
            final(self).status == ParseStatus::Done,
            final(self).current_error is None,
            final(self).last_good == Some(report),
            final(self).lines@ == report.lines@,
            *final(self) == (AppState {
                lines: final(self).lines,
                last_good: final(self).last_good,
                current_error: final(self).current_error,
                status: final(self).status,
                cursor_line_idx: final(self).cursor_line_idx,
                selected_match_idx: final(self).selected_match_idx,
                selected_record_idx: final(self).selected_record_idx,
                ..*old(self)
            }),
            final(self).lines@.len() == 0 || final(self).cursor_line_idx < final(self).lines@.len(),
    {
        self.lines = clone_strings(&report.lines);
        self.last_good = Some(report);
        self.current_error = None;
        self.status = ParseStatus::Done;
        self.clamp_cursor();
        self.clamp_selected_match();
        self.clamp_selected_record();
        self.sync_selections();
    }

    /// Shows a parse error; the last good report stays.
    pub fn on_parse_error(&mut self, error: String)
        ensures
            final(self).current_error == Some(error),
            final(self).status == ParseStatus::Error,
            final(self).cursor_line_idx == clamp_to(old(self).cursor_line_idx as nat, old(self).lines@.len()),
            *final(self) == (AppState {
                current_error: final(self).current_error,
                status: final(self).status,
                cursor_line_idx: final(self).cursor_line_idx,
                selected_match_idx: final(self).selected_match_idx,
                selected_record_idx: final(self).selected_record_idx,
                ..*old(self)
            }),
    {
        self.current_error = Some(error);
        self.status = ParseStatus::Error;
        self.clamp_cursor();
        self.clamp_selected_match();
        self.clamp_selected_record();
    }

    pub fn cursor_up(&mut self)
        ensures
            final(self).cursor_line_idx == if old(self).cursor_line_idx > 0 {
                old(self).cursor_line_idx - 1
            } else {
                0
            },
            final(self).selected_match_idx == 0,
            *final(self) == (AppState {
                cursor_line_idx: final(self).cursor_line_idx,
                selected_match_idx: final(self).selected_match_idx,
                selected_record_idx: final(self).selected_record_idx,
                ..*old(self)
            }),
    {
        self.cursor_line_idx = if self.cursor_line_idx > 0 {
            self.cursor_line_idx - 1
        } else {
            0
        };
        self.selected_match_idx = 0;
        if self.view_mode == ViewMode::Records {
            self.sync_record_selection_to_cursor();
        }
    }

    pub fn cursor_down(&mut self)
        ensures
            final(self).cursor_line_idx == vstd::math::min(
                old(self).cursor_line_idx + 1,
                if old(self).lines@.len() > 0 {
                    old(self).lines@.len() - 1
                } else {
                    0
                },
            ),
            final(self).selected_match_idx == 0,
            *final(self) == (AppState {
                cursor_line_idx: final(self).cursor_line_idx,
                selected_match_idx: final(self).selected_match_idx,
                selected_record_idx: final(self).selected_record_idx,
                ..*old(self)
            }),
    {
        let max = if self.lines.len() > 0 {
            self.lines.len() - 1
        } else {
            0
        };
        self.cursor_line_idx = if self.cursor_line_idx < max {
            self.cursor_line_idx + 1
        } else {
            max
        };
        self.selected_match_idx = 0;
        if self.view_mode == ViewMode::Records {
            self.sync_record_selection_to_cursor();
        }
    }

    pub fn toggle_view_mode(&mut self)
        ensures
            final(self).view_mode != old(self).view_mode,
            *final(self) == (AppState {
                view_mode: final(self).view_mode,
                cursor_line_idx: final(self).cursor_line_idx,
                selected_match_idx: final(self).selected_match_idx,
                selected_record_idx: final(self).selected_record_idx,
                ..*old(self)
            }),
    {
        self.view_mode = match self.view_mode {
            ViewMode::Matches => ViewMode::Records,
            ViewMode::Records => ViewMode::Matches,
        };
        self.sync_selections();
    }

    pub fn selected_match_prev(&mut self)
        ensures
            old(self).view_mode == ViewMode::Matches ==> final(self).selected_match_idx == if old(self).selected_match_idx > 0 {
                old(self).selected_match_idx - 1
            } else {
                0
            },
    {
        match self.view_mode {
            ViewMode::Matches => {
                self.selected_match_idx = if self.selected_match_idx > 0 {
                    self.selected_match_idx - 1
                } else {
                    0
                };
            },
            ViewMode::Records => {
                self.selected_record_idx = if self.selected_record_idx > 0 {
                    self.selected_record_idx - 1
                } else {
                    0
                };
                self.sync_cursor_to_selected_record();
            },
        }
    }

    pub fn selected_match_next(&mut self)
        ensures
            old(self).view_mode == ViewMode::Matches ==> final(self).selected_match_idx <= old(self).selected_match_idx + 1,
    {
        match self.view_mode {
            ViewMode::Matches => {
                self.selected_match_idx = if self.selected_match_idx < usize::MAX {
                    self.selected_match_idx + 1
                } else {
                    usize::MAX
                };
                self.clamp_selected_match();
            },
            ViewMode::Records => {
                self.selected_record_idx = if self.selected_record_idx < usize::MAX {
                    self.selected_record_idx + 1
                } else {
                    usize::MAX
                };
                self.clamp_selected_record();
                self.sync_cursor_to_selected_record();
            },
        }
    }

    fn clamp_cursor(&mut self)
        ensures
            final(self).cursor_line_idx == clamp_to(old(self).cursor_line_idx as nat, old(self).lines@.len()),
            *final(self) == (AppState { cursor_line_idx: final(self).cursor_line_idx, ..*old(self) }),
    {
        self.cursor_line_idx = clamp_exec(self.cursor_line_idx, self.lines.len());
    }

    fn clamp_selected_match(&mut self)
        ensures
            final(self).selected_match_idx <= old(self).selected_match_idx,
            *final(self) == (AppState { selected_match_idx: final(self).selected_match_idx, ..*old(self) }),
    {
        let n = match &self.last_good {
            None => 0,
            Some(report) => {
                if self.cursor_line_idx < report.matches_by_line.len() {
                    report.matches_by_line[self.cursor_line_idx].len()
                } else {
                    0
                }
            },
        };
        self.selected_match_idx = clamp_exec(self.selected_match_idx, n);
    }

    fn clamp_selected_record(&mut self)
        ensures
            *final(self) == (AppState { selected_record_idx: final(self).selected_record_idx, ..*old(self) }),
    {
        let n = match &self.last_good {
            None => 0,
            Some(report) => report.records.len(),
        };
        self.selected_record_idx = clamp_exec(self.selected_record_idx, n);
    }

    fn sync_selections(&mut self)
        ensures
            *final(self) == (AppState {
                cursor_line_idx: final(self).cursor_line_idx,
                selected_match_idx: final(self).selected_match_idx,
                selected_record_idx: final(self).selected_record_idx,
                ..*old(self)
            }),
            final(self).lines@.len() == 0 || final(self).cursor_line_idx < final(self).lines@.len(),
    {
        match self.view_mode {
            ViewMode::Matches => {
                self.clamp_cursor();
                self.clamp_selected_match();
            },
            ViewMode::Records => {
                self.clamp_cursor();
                self.clamp_selected_record();
                self.sync_record_selection_to_cursor();
                self.sync_cursor_to_selected_record();
            },
        }
    }

    /// Selects the record emitted nearest to the cursor line (the first of
    /// equally near ones).
    fn sync_record_selection_to_cursor(&mut self)
        ensures
            *final(self) == (AppState { selected_record_idx: final(self).selected_record_idx, ..*old(self) }),
            final(self).last_good matches Some(r) ==> (r.records@.len() == 0
                ==> final(self).selected_record_idx == 0) && (r.records@.len() > 0 ==> final(self).selected_record_idx < r.records@.len() && forall|i: int|
                0 <= i < r.records@.len() ==> dist(
                    r.records@[final(self).selected_record_idx as int].line_idx as nat,
                    final(self).cursor_line_idx as nat,
                ) <= dist((#[trigger] r.records@[i]).line_idx as nat, final(self).cursor_line_idx as nat)),
    {
        let best = match &self.last_good {
            None => 0,
            Some(report) => nearest_record(report, self.cursor_line_idx),
        };
        self.selected_record_idx = best;
    }

    fn sync_cursor_to_selected_record(&mut self)
        ensures
            *final(self) == (AppState { cursor_line_idx: final(self).cursor_line_idx, ..*old(self) }),
            final(self).lines@.len() == 0 || old(self).cursor_line_idx < old(self).lines@.len() ==> final(self).lines@.len() == 0 || final(self).cursor_line_idx < final(self).lines@.len(),
    {
        let target = match &self.last_good {
            None => None,
            Some(report) => {
                if self.selected_record_idx < report.records.len() {
                    Some(report.records[self.selected_record_idx].line_idx)
                } else {
                    None
                }
            },
        };
        match target {
            Some(l) => {
                self.cursor_line_idx = l;
                self.clamp_cursor();
            },
            None => {},
        }
    }

    fn sync_cursor_to_trace(&mut self)
        ensures
            *final(self) == (AppState { cursor_line_idx: final(self).cursor_line_idx, ..*old(self) }),
    {
        let target = match &self.last_good {
            None => None,
            Some(report) => {
                if self.trace_index < report.trace.len() {
                    Some(report.trace[self.trace_index].line_idx)
                } else {
                    None
                }
            },
        };
        match target {
            Some(l) => {
                self.cursor_line_idx = l;
                self.clamp_cursor();
            },
            None => {},
        }
    }

    fn is_stop_exec(report: &DebugReport, i: usize, mode: SteppingMode) -> (r: bool)
        requires
            i < report.trace@.len(),
        ensures
            r == is_stop(*report, i as int, mode),
    {
        match mode {
            SteppingMode::LineByLine => true,
            SteppingMode::StateByState => !str_eq(
                report.trace[i].state_before.as_str(),
                report.trace[i].state_after.as_str(),
            ),
            SteppingMode::ActionByAction => report.trace[i].event_type
                == TraceEventType::RecordEmitted || report.trace[i].event_type
                == TraceEventType::RecordCleared,
        }
    }

    /// The next stop after `current` in `mode`; `current` if there is none.
    fn find_next_event(report: &DebugReport, current: usize, mode: SteppingMode) -> (r: usize)
        ensures
            r == current || (current < r < report.trace@.len() && is_stop(*report, r as int, mode)
                && forall|j: int| current < j < r ==> !is_stop(*report, j, mode)),
    {
        let n = report.trace.len();
        if current >= n {
            return current;
        }
        let mut i: usize = current + 1;
        while i < n
            invariant
                n == report.trace@.len(),
                current < i <= n,
                forall|j: int| current < j < i ==> !is_stop(*report, j, mode),
            decreases n - i,
        {
            if Self::is_stop_exec(report, i, mode) {
                return i;
            }
            i = i + 1;
        }
        current
    }

    /// The previous stop before `current` in `mode`; `current` if there is none.
    fn find_prev_event(report: &DebugReport, current: usize, mode: SteppingMode) -> (r: usize)
        ensures
            r == current || (r < current && r < report.trace@.len() && is_stop(*report, r as int, mode)
                && forall|j: int| r < j < current && j < report.trace@.len() ==> !is_stop(*report, j, mode)),
    {
        let n = report.trace.len();
        let mut i: usize = if current < n {
            current
        } else {
            n
        };
        while i > 0
            invariant
                n == report.trace@.len(),
                i <= current,
                i <= n,
                forall|j: int| i <= j < current && j < n ==> !is_stop(*report, j, mode),
            decreases i,
        {
            if Self::is_stop_exec(report, i - 1, mode) {
                return i - 1;
            }
            i = i - 1;
        }
        current
    }

    pub fn step_forward(&mut self)
        ensures
            final(self).last_good == old(self).last_good,
            old(self).last_good matches Some(r) ==> {
                let t = final(self).trace_index;
                t == old(self).trace_index || (old(self).trace_index < t < r.trace@.len()
                    && is_stop(r, t as int, old(self).stepping_mode))
            },
    {
        let next = match &self.last_good {
            None => {
                return;
            },
            Some(report) => Self::find_next_event(report, self.trace_index, self.stepping_mode),
        };
        if next != self.trace_index {
            self.trace_index = next;
            self.sync_cursor_to_trace();
        }
    }

    pub fn step_backward(&mut self)
        ensures
            final(self).last_good == old(self).last_good,
            old(self).last_good matches Some(r) ==> {
                let t = final(self).trace_index;
                t == old(self).trace_index || (t < old(self).trace_index && is_stop(
                    r,
                    t as int,
                    old(self).stepping_mode,
                ))
            },
    {
        let prev = match &self.last_good {
            None => {
                return;
            },
            Some(report) => Self::find_prev_event(report, self.trace_index, self.stepping_mode),
        };
        if prev != self.trace_index {
            self.trace_index = prev;
            self.sync_cursor_to_trace();
        }
    }

    pub fn jump_to_next_record(&mut self)
        ensures
            final(self).last_good == old(self).last_good,
            old(self).last_good matches Some(r) ==> {
                let t = final(self).trace_index;
                t == old(self).trace_index || (old(self).trace_index < t < r.trace@.len()
                    && r.trace@[t as int].event_type == TraceEventType::RecordEmitted)
            },
    {
        let found = match &self.last_good {
            None => None,
            Some(report) => {
                let n = report.trace.len();
                let mut i: usize = if self.trace_index < n {
                    self.trace_index + 1
                } else {
                    n
                };
                let mut f: Option<usize> = None;
                while i < n && f.is_none()
                    invariant
                        n == report.trace@.len(),
                        i <= n,
                        i == n || self.trace_index < i,
                        f matches Some(x) ==> self.trace_index < x < n && report.trace@[x as int].event_type == TraceEventType::RecordEmitted,
                    decreases n - i + (if f is None { 1int } else { 0int }),
                {
                    if report.trace[i].event_type == TraceEventType::RecordEmitted {
                        f = Some(i);
                    } else {
                        i = i + 1;
                    }
                }
                f
            },
        };
        match found {
            Some(idx) => {
                self.trace_index = idx;
                self.sync_cursor_to_trace();
            },
            None => {},
        }
    }

    pub fn jump_to_previous_record(&mut self)
        ensures
            final(self).last_good == old(self).last_good,
            old(self).last_good matches Some(r) ==> {
                let t = final(self).trace_index;
                t == old(self).trace_index || (t < old(self).trace_index && t < r.trace@.len()
                    && r.trace@[t as int].event_type == TraceEventType::RecordEmitted)
            },
    {
        let found = match &self.last_good {
            None => None,
            Some(report) => {
                let n = report.trace.len();
                let mut i: usize = if self.trace_index < n {
                    self.trace_index
                } else {
                    n
                };
                let mut f: Option<usize> = None;
                while i > 0 && f.is_none()
                    invariant
                        n == report.trace@.len(),
                        i <= n,
                        i <= self.trace_index,
                        f matches Some(x) ==> x < self.trace_index && x < n && report.trace@[x as int].event_type == TraceEventType::RecordEmitted,
                    decreases i + (if f is None { 1int } else { 0int }),
                {
                    if report.trace[i - 1].event_type == TraceEventType::RecordEmitted {
                        f = Some(i - 1);
                    } else {
                        i = i - 1;
                    }
                }
                f
            },
        };
        match found {
            Some(idx) => {
                self.trace_index = idx;
                self.sync_cursor_to_trace();
            },
            None => {},
        }
    }

    /// Moves the trace position to the first event on line `line_idx`.
    pub fn jump_to_line(&mut self, line_idx: usize)
        ensures
            final(self).last_good == old(self).last_good,
            old(self).last_good matches Some(r) ==> {
                let t = final(self).trace_index;
                (t == old(self).trace_index && forall|j: int|
                    0 <= j < r.trace@.len() ==> (#[trigger] r.trace@[j]).line_idx != line_idx) || (t
                    < r.trace@.len() && r.trace@[t as int].line_idx == line_idx && forall|j: int|
                    0 <= j < t ==> (#[trigger] r.trace@[j]).line_idx != line_idx)
            },
    {
        let found = match &self.last_good {
            None => None,
            Some(report) => {
                let n = report.trace.len();
                let mut i: usize = 0;
                let mut f: Option<usize> = None;
                while i < n && f.is_none()
                    invariant
                        n == report.trace@.len(),
                        i <= n,
                        f is None ==> forall|j: int| 0 <= j < i ==> (#[trigger] report.trace@[j]).line_idx != line_idx,
                        f matches Some(x) ==> x < n && report.trace@[x as int].line_idx == line_idx && forall|j: int| 0 <= j < x ==> (#[trigger] report.trace@[j]).line_idx != line_idx,
                    decreases n - i + (if f is None { 1int } else { 0int }),
                {
                    if report.trace[i].line_idx == line_idx {
                        f = Some(i);
                    } else {
                        i = i + 1;
                    }
                }
                f
            },
        };
        match found {
            Some(idx) => {
                self.trace_index = idx;
                self.sync_cursor_to_trace();
            },
            None => {},
        }
    }

    pub fn toggle_stepping_mode(&mut self)
        ensures
            *final(self) == (AppState {
                stepping_mode: match old(self).stepping_mode {
                    SteppingMode::LineByLine => SteppingMode::StateByState,
                    SteppingMode::StateByState => SteppingMode::ActionByAction,
                    SteppingMode::ActionByAction => SteppingMode::LineByLine,
                },
                ..*old(self)
            }),
    {
        self.stepping_mode = match self.stepping_mode {
            SteppingMode::LineByLine => SteppingMode::StateByState,
            SteppingMode::StateByState => SteppingMode::ActionByAction,
            SteppingMode::ActionByAction => SteppingMode::LineByLine,
        };
    }

    pub fn toggle_filter_line_events(&mut self)
        ensures
            final(self).filter_state.show_line_events == !old(self).filter_state.show_line_events,
    {
        self.filter_state.show_line_events = !self.filter_state.show_line_events;
    }

    pub fn toggle_filter_state_changes(&mut self)
        ensures
            final(self).filter_state.show_state_changes == !old(self).filter_state.show_state_changes,
    {
        self.filter_state.show_state_changes = !self.filter_state.show_state_changes;
    }

    pub fn toggle_filter_record_actions(&mut self)
        ensures
            final(self).filter_state.show_record_actions == !old(self).filter_state.show_record_actions,
    {
        self.filter_state.show_record_actions = !self.filter_state.show_record_actions;
    }

    pub fn toggle_filter_clear_actions(&mut self)
        ensures
            final(self).filter_state.show_clear_actions == !old(self).filter_state.show_clear_actions,
    {
        self.filter_state.show_clear_actions = !self.filter_state.show_clear_actions;
    }

    /// Adds `var_name` to the watch list, or removes it if it is there.
    pub fn toggle_watch(&mut self, var_name: String)
        ensures
            crate::fsm::strings_view(old(self).watch_list@).contains(var_name@) ==> !crate::fsm::strings_view(final(self).watch_list@).contains(var_name@),
            !crate::fsm::strings_view(old(self).watch_list@).contains(var_name@) ==> crate::fsm::strings_view(final(self).watch_list@) == crate::fsm::strings_view(old(self).watch_list@).push(var_name@),
            *final(self) == (AppState { watch_list: final(self).watch_list, ..*old(self) }),
    {
        let ghost old_v = crate::fsm::strings_view(self.watch_list@);
        let mut kept: Vec<String> = Vec::new();
        let mut found = false;
        let mut i: usize = 0;
        while i < self.watch_list.len()
            invariant
                i <= self.watch_list@.len(),
                old_v == crate::fsm::strings_view(self.watch_list@),
                found <==> exists|j: int| 0 <= j < i && old_v[j] == var_name@,
                forall|a: int| 0 <= a < kept@.len() ==> (#[trigger] kept@[a])@ != var_name@,
                !found ==> crate::fsm::strings_view(kept@) == old_v.subrange(0, i as int),
            decreases self.watch_list@.len() - i,
        {
            let ghost prev = kept@;
            if str_eq(self.watch_list[i].as_str(), var_name.as_str()) {
                found = true;
            } else {
                kept.push(self.watch_list[i].clone());
                proof {
                    assert(crate::fsm::strings_view(kept@) =~= crate::fsm::strings_view(prev).push(old_v[i as int]));
                    assert forall|a: int| 0 <= a < kept@.len() implies (#[trigger] kept@[a])@ != var_name@ by {
                        if a < prev.len() {
                            assert(kept@[a] == prev[a]);
                        }
                    }
                }
            }
            proof {
                assert(old_v.subrange(0, i + 1) =~= old_v.subrange(0, i as int).push(old_v[i as int]));
            }
            i = i + 1;
        }
        if found {
            self.watch_list = kept;
            proof {
                assert forall|a: int| 0 <= a < crate::fsm::strings_view(self.watch_list@).len() implies crate::fsm::strings_view(self.watch_list@)[a] != var_name@ by {
                    assert(self.watch_list@[a]@ != var_name@);
                }
            }
        } else {
            proof {
                assert(old_v.subrange(0, i as int) =~= old_v);
                assert(!old_v.contains(var_name@));
            }
            let ghost prev = self.watch_list@;
            self.watch_list.push(var_name);
            assert(crate::fsm::strings_view(self.watch_list@) =~= crate::fsm::strings_view(prev).push(var_name@));
        }
    }
}

/// The index of the record emitted nearest to line `cursor` (the first of
/// equally near ones); 0 when there is none.
fn nearest_record(report: &DebugReport, cursor: usize) -> (r: usize)
    ensures
        report.records@.len() == 0 ==> r == 0,
        report.records@.len() > 0 ==> r < report.records@.len() && forall|i: int|
            0 <= i < report.records@.len() ==> dist(
                report.records@[r as int].line_idx as nat,
                cursor as nat,
            ) <= dist((#[trigger] report.records@[i]).line_idx as nat, cursor as nat),
{
    let mut best_idx: usize = 0;
    let mut best_dist: usize = usize::MAX;
    let mut i: usize = 0;
    let n = report.records.len();
    while i < n
        invariant
            n == report.records@.len(),
            i <= n,
            i == 0 ==> best_idx == 0,
            i > 0 ==> best_idx < i,
            i > 0 ==> best_dist == dist(report.records@[best_idx as int].line_idx as nat, cursor as nat),
            forall|j: int| 0 <= j < i ==> best_dist <= dist((#[trigger] report.records@[j]).line_idx as nat, cursor as nat),
        decreases n - i,
    {
        let l = report.records[i].line_idx;
        let d = if l > cursor {
            l - cursor
        } else {
            cursor - l
        };
        if d < best_dist || i == 0 {
            best_dist = d;
            best_idx = i;
        }
        i = i + 1;
    }
    best_idx
}

fn clone_strings(v: &Vec<String>) -> (r: Vec<String>)
    ensures
        r@ == v@,
{
    let mut out: Vec<String> = Vec::new();
    let mut i: usize = 0;
    while i < v.len()
        invariant
            i <= v@.len(),
            out@ == v@.subrange(0, i as int),
        decreases v@.len() - i,
    {
        out.push(v[i].clone());
        i = i + 1;
        assert(out@ =~= v@.subrange(0, i as int));
    }
    assert(out@ =~= v@);
    out
}

} // verus!
