//! The file picker's state.
use vstd::prelude::*;

verus! {

/// What the picker is choosing.
#[derive(Debug, Clone, Copy, PartialEq, Eq, Structural)]
pub enum PickTarget {
    Template,
    Input,
}

/// One directory entry.
#[derive(Debug, Clone, PartialEq)]
pub struct PickerEntry {
    pub name: String,
    pub path: String,
    pub is_dir: bool,
}

/// The listing of a directory and the selection in it.
#[derive(Debug, Clone)]
pub struct PickerState {
    pub cwd: String,
    pub entries: Vec<PickerEntry>,
    pub selected_idx: usize,
    pub target: PickTarget,
    pub manual: bool,
    pub manual_input: String,
    pub manual_cursor: usize,
    pub last_error: Option<String>,
}

/// What a key press in the picker produced.
#[derive(Debug, Clone, PartialEq)]
pub enum PickerKeyResult {
    Noop,
    Selected(String),
}

impl PickerState {
    /// A picker over the listing `entries` of `cwd`, the first entry selected.
    pub fn new(cwd: String, target: PickTarget, entries: Vec<PickerEntry>) -> (r: Self)
        ensures
            r.cwd == cwd,
            r.target == target,
            r.entries@ == entries@,
            r.selected_idx == 0,
            !r.manual,
            r.last_error is None,
    {
        PickerState {
            cwd,
            entries,
            selected_idx: 0,
            target,
            manual: false,
            manual_input: String::new(),
            manual_cursor: 0,
            last_error: None,
        }
    }

    pub fn set_target(&mut self, target: PickTarget)
        ensures
            final(self).target == target,
            final(self).entries@ == old(self).entries@,
            final(self).selected_idx == old(self).selected_idx,
    {
        self.target = target;
    }

    /// The selected entry, if the listing is not empty.
    pub fn select_current(&self) -> (r: Option<&PickerEntry>)
        ensures
            r is Some <==> self.selected_idx < self.entries@.len(),
            r is Some ==> *r.unwrap() == self.entries@[self.selected_idx as int],
    {
        if self.selected_idx < self.entries.len() {
            Some(&self.entries[self.selected_idx])
        } else {
            None
        }
    }
}

} // verus!
