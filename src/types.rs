//! The template model: field definitions, rules, states and errors.
use vstd::prelude::*;

verus! {

/// What a rule does when it fires.
///
/// As a line action only `Next` and `Continue` are meaningful. As a record
/// action `Next` stands for "no record action" (the legacy `NoRecord`).
#[derive(Debug, Clone, Copy, PartialEq, Eq, Structural)]
pub enum Action {
    Next,
    Continue,
    Record,
    Clear,
    ClearAll,
    Error,
}

/// The type hint of a field.
#[derive(Debug, Clone, Copy, PartialEq, Eq, Hash, Structural)]
pub enum FieldType {
    Int,
    String,
}

/// One field (column) of the output records.
#[derive(Debug, Clone, PartialEq)]
pub struct ValueDef {
    pub name: String,
    pub regex: String,
    pub filldown: bool,
    pub required: bool,
    pub list: bool,
    pub type_hint: Option<FieldType>,
}

/// One row of a state.
#[derive(Debug, Clone, PartialEq)]
pub struct Rule {
    pub regex: String,
    pub line_action: Action,
    pub record_action: Action,
    pub next_state: Option<String>,
}

/// A named, ordered list of rules.
#[derive(Debug, Clone, PartialEq)]
pub struct State {
    pub name: String,
    pub rules: Vec<Rule>,
}

/// The loaded (not yet compiled) template: fields, states and local macros,
/// each in declaration order.
#[derive(Debug, Clone, PartialEq)]
pub struct TemplateIR {
    pub values: Vec<ValueDef>,
    pub states: Vec<State>,
    pub macros: Vec<(String, String)>,
}

/// The stable kinds of failure.
#[derive(Debug, Clone, Copy, PartialEq, Eq, Structural)]
pub enum ErrorKind {
    TemplateSyntax,
    TemplateSchema,
    MacroUnknown,
    MacroCycle,
    MacroTooDeep,
    PlaceholderUndefined,
    NamedGroupWithoutField,
    RegexCompile,
    StateTransitionUnknown,
    StateMissingStart,
    ErrorActionTriggered,
    /// `Continue` fires would revisit a state and rule on one line forever.
    ContinueLoop,
}

/// An error of the library: reading failed, or loading, compiling or parsing did.
#[derive(Debug, Clone, PartialEq)]
pub enum ScraperError {
    Io(String),
    Parse(ErrorKind, String),
}

/// A non-fatal observation made while loading a template.
#[derive(Debug, Clone, PartialEq)]
pub struct TemplateWarning {
    pub kind: String,
    pub message: String,
}

/// The on-disk dialect of a template.
#[derive(Debug, Clone, Copy, PartialEq, Eq, Structural)]
pub enum TemplateFormat {
    Auto,
    Textfsm,
    Yaml,
    Toml,
}

impl ScraperError {
    pub open spec fn kind_spec(&self) -> Option<ErrorKind> {
        match self {
            ScraperError::Io(_) => None,
            ScraperError::Parse(k, _) => Some(*k),
        }
    }

    /// The error's kind; `None` for an I/O error.
    pub fn kind(&self) -> (r: Option<ErrorKind>)
        ensures
            r == self.kind_spec(),
    {
        match self {
            ScraperError::Io(_) => None,
            ScraperError::Parse(k, _) => Some(*k),
        }
    }

    pub open spec fn message_spec(&self) -> Seq<char> {
        match self {
            ScraperError::Io(m) => m@,
            ScraperError::Parse(_, m) => m@,
        }
    }

    /// The human-readable text of the error.
    pub fn message(&self) -> (r: String)
        ensures
            r@ == self.message_spec(),
    {
        match self {
            ScraperError::Io(m) => m.clone(),
            ScraperError::Parse(_, m) => m.clone(),
        }
    }
}


impl TemplateIR {
    /// The index of the field named `name`, searching in declaration order.
    pub open spec fn value_index(&self, name: Seq<char>) -> int {
        first_value_index(self.values@, name)
    }

    /// The field named `name`, if any.
    pub fn value(&self, name: &str) -> (r: Option<&ValueDef>)
        ensures
            r.is_some() == (0 <= self.value_index(name@)),
            r.is_some() ==> *r.unwrap() == self.values@[self.value_index(name@)],
    {
        let i = find_value(&self.values, name);
        if i < self.values.len() {
            Some(&self.values[i])
        } else {
            None
        }
    }

    /// The state named `name`, if any.
    pub fn state(&self, name: &str) -> (r: Option<&State>)
        ensures
            r.is_some() == (0 <= first_state_index(self.states@, name@)),
            r.is_some() ==> *r.unwrap() == self.states@[first_state_index(self.states@, name@)],
    {
        let i = find_state(&self.states, name);
        if i < self.states.len() {
            Some(&self.states[i])
        } else {
            None
        }
    }
}

/// The first index in `vs` of a field named `name`, or -1.
pub open spec fn first_value_index(vs: Seq<ValueDef>, name: Seq<char>) -> int
    decreases vs.len(),
{
    if vs.len() == 0 {
        -1
    } else if first_value_index(vs.drop_last(), name) >= 0 {
        first_value_index(vs.drop_last(), name)
    } else if vs.last().name@ == name {
        vs.len() - 1
    } else {
        -1
    }
}

/// The first index in `ss` of a state named `name`, or -1.
pub open spec fn first_state_index(ss: Seq<State>, name: Seq<char>) -> int
    decreases ss.len(),
{
    if ss.len() == 0 {
        -1
    } else if first_state_index(ss.drop_last(), name) >= 0 {
        first_state_index(ss.drop_last(), name)
    } else if ss.last().name@ == name {
        ss.len() - 1
    } else {
        -1
    }
}

pub proof fn lemma_first_value_index(vs: Seq<ValueDef>, name: Seq<char>)
    ensures
        -1 <= first_value_index(vs, name) < vs.len(),
        first_value_index(vs, name) >= 0 ==> vs[first_value_index(vs, name)].name@ == name,
        first_value_index(vs, name) >= 0 ==> forall|j: int|
            0 <= j < first_value_index(vs, name) ==> vs[j].name@ != name,
        first_value_index(vs, name) < 0 ==> forall|j: int| 0 <= j < vs.len() ==> vs[j].name@ != name,
    decreases vs.len(),
{
    if vs.len() > 0 {
        let t = vs.drop_last();
        lemma_first_value_index(t, name);
        let k = first_value_index(vs, name);
        assert forall|j: int| 0 <= j < vs.len() && (k < 0 || j < k) implies vs[j].name@ != name by {
            if j < t.len() {
                assert(t[j] == vs[j]);
            }
        }
    }
}

pub proof fn lemma_first_state_index(ss: Seq<State>, name: Seq<char>)
    ensures
        -1 <= first_state_index(ss, name) < ss.len(),
        first_state_index(ss, name) >= 0 ==> ss[first_state_index(ss, name)].name@ == name,
        first_state_index(ss, name) >= 0 ==> forall|j: int|
            0 <= j < first_state_index(ss, name) ==> ss[j].name@ != name,
        first_state_index(ss, name) < 0 ==> forall|j: int| 0 <= j < ss.len() ==> ss[j].name@ != name,
    decreases ss.len(),
{
    if ss.len() > 0 {
        let t = ss.drop_last();
        lemma_first_state_index(t, name);
        let k = first_state_index(ss, name);
        assert forall|j: int| 0 <= j < ss.len() && (k < 0 || j < k) implies ss[j].name@ != name by {
            if j < t.len() {
                assert(t[j] == ss[j]);
            }
        }
    }
}

proof fn lemma_first_value_index_char(vs: Seq<ValueDef>, name: Seq<char>, i: int)
    requires
        0 <= i <= vs.len(),
        forall|j: int| 0 <= j < i ==> vs[j].name@ != name,
        i < vs.len() ==> vs[i].name@ == name,
    ensures
        first_value_index(vs, name) == if i < vs.len() { i } else { -1 },
{
    lemma_first_value_index(vs, name);
}

proof fn lemma_first_state_index_char(ss: Seq<State>, name: Seq<char>, i: int)
    requires
        0 <= i <= ss.len(),
        forall|j: int| 0 <= j < i ==> ss[j].name@ != name,
        i < ss.len() ==> ss[i].name@ == name,
    ensures
        first_state_index(ss, name) == if i < ss.len() { i } else { -1 },
{
    lemma_first_state_index(ss, name);
}

/// The index of the first field named `name`, or `vs.len()` if none is.
pub fn find_value(vs: &Vec<ValueDef>, name: &str) -> (r: usize)
    ensures
        r <= vs@.len(),
        r < vs@.len() <==> first_value_index(vs@, name@) >= 0,
        r < vs@.len() ==> r == first_value_index(vs@, name@),
{
    let mut i: usize = 0;
    while i < vs.len()
        invariant
            i <= vs@.len(),
            forall|j: int| 0 <= j < i ==> vs@[j].name@ != name@,
        decreases vs@.len() - i,
    {
        if crate::text::str_eq(vs[i].name.as_str(), name) {
            proof {
                lemma_first_value_index_char(vs@, name@, i as int);
            }
            return i;
        }
        i = i + 1;
    }
    proof {
        lemma_first_value_index_char(vs@, name@, i as int);
    }
    i
}

/// The index of the first state named `name`, or `ss.len()` if none is.
pub fn find_state(ss: &Vec<State>, name: &str) -> (r: usize)
    ensures
        r <= ss@.len(),
        r < ss@.len() <==> first_state_index(ss@, name@) >= 0,
        r < ss@.len() ==> r == first_state_index(ss@, name@),
{
    let mut i: usize = 0;
    while i < ss.len()
        invariant
            i <= ss@.len(),
            forall|j: int| 0 <= j < i ==> ss@[j].name@ != name@,
        decreases ss@.len() - i,
    {
        if crate::text::str_eq(ss[i].name.as_str(), name) {
            proof {
                lemma_first_state_index_char(ss@, name@, i as int);
            }
            return i;
        }
        i = i + 1;
    }
    proof {
        lemma_first_state_index_char(ss@, name@, i as int);
    }
    i
}

} // verus!
