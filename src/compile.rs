//! Template compilation: macro expansion, placeholder substitution, regex
//! compilation and cross-reference checks.
use vstd::prelude::*;
use crate::macros::{expand_macros, expand_spec, full_table, is_ident, prepend};
use crate::pattern::{names_view, regex_groups, regex_ok, Pattern};
use crate::text::{chars_of, lit, string_of, trim_bounds, trim_spec};
use crate::types::{
    find_state, find_value, first_state_index, first_value_index, Action, ErrorKind, Rule,
    ScraperError, State, TemplateIR, ValueDef,
};

verus! {

/// Where a rule sends the machine.
#[derive(Debug, Clone, Copy, PartialEq, Eq, Structural)]
pub enum Target {
    Stay,
    End,
    To(usize),
}

/// A rule with its final regex compiled and its next state resolved.
#[derive(Debug)]
pub struct CompiledRule {
    pub regex: Pattern,
    pub groups: Vec<Option<String>>,
    pub line_action: Action,
    pub record_action: Action,
    pub next_state: Option<String>,
    pub target: Target,
}

/// A compiled state.
#[derive(Debug)]
pub struct CompiledState {
    pub name: String,
    pub rules: Vec<CompiledRule>,
}

/// A compiled template, ready to parse input.
#[derive(Debug)]
pub struct Template {
    pub states: Vec<CompiledState>,
    pub values: Vec<ValueDef>,
    pub start: usize,
    pub eof: Option<usize>,
    pub budget: usize,
}

/// The number of identifier characters starting at `p`.
pub open spec fn ident_len(s: Seq<char>, p: int) -> nat
    decreases s.len() - p,
{
    if 0 <= p < s.len() && is_ident(s[p]) {
        1 + ident_len(s, p + 1)
    } else {
        0
    }
}

/// If a placeholder `${name}` starts at `p`, the end of its name (the
/// placeholder ends one past it).
pub open spec fn placeholder_at(s: Seq<char>, p: int) -> Option<int> {
    let n = ident_len(s, p + 2);
    if 0 <= p && p + 3 + n <= s.len() && s[p] == '$' && s[p + 1] == '{' && n > 0 && s[p + 2 + n]
        == '}' {
        Some(p + 2 + n)
    } else {
        None
    }
}

/// The named group a placeholder becomes.
pub open spec fn group_text(name: Seq<char>, pat: Seq<char>) -> Seq<char> {
    "(?P<"@ + name + ">"@ + pat + ")"@
}

/// Whether `v` can back a placeholder: its pattern is not empty.
pub open spec fn has_pattern(v: ValueDef) -> bool {
    v.regex@.len() > 0
}

/// `s[p..]` with each `${name}` replaced, literally and once, by the named
/// group of the field `name`.
pub open spec fn subst_from(s: Seq<char>, p: int, vals: Seq<ValueDef>) -> Result<Seq<char>, ErrorKind>
    decreases s.len() - p,
{
    if p < 0 || p >= s.len() {
        Ok(Seq::empty())
    } else {
        match placeholder_at(s, p) {
            None => prepend(seq![s[p]], subst_from(s, p + 1, vals)),
            Some(end) => {
                let name = s.subrange(p + 2, end);
                let i = first_value_index(vals, name);
                if i < 0 || !has_pattern(vals[i]) {
                    Err(ErrorKind::PlaceholderUndefined)
                } else {
                    prepend(group_text(name, vals[i].regex@), subst_from(s, end + 1, vals))
                }
            },
        }
    }
}

/// Every named group of `groups` is a declared field.
pub open spec fn groups_declared(groups: Seq<Option<Seq<char>>>, vals: Seq<ValueDef>) -> bool {
    forall|i: int|
        0 <= i < groups.len() && (#[trigger] groups[i]) is Some ==> first_value_index(
            vals,
            groups[i].unwrap(),
        ) >= 0
}

/// Whether `next` names a defined state or `End`.
pub open spec fn target_ok(next: Option<String>, states: Seq<State>) -> bool {
    match next {
        None => true,
        Some(n) => n@ == "End"@ || first_state_index(states, n@) >= 0,
    }
}

/// The final regex of a rule, or why the rule does not compile.
pub open spec fn rule_result(ir: TemplateIR, rule: Rule) -> Result<Seq<char>, ErrorKind> {
    match expand_spec(rule.regex@, full_table(ir.macros@)) {
        Err(k) => Err(k),
        Ok(x) => match subst_from(x, 0, ir.values@) {
            Err(k) => Err(k),
            Ok(y) => if !regex_ok(y) {
                Err(ErrorKind::RegexCompile)
            } else if !groups_declared(regex_groups(y), ir.values@) {
                Err(ErrorKind::NamedGroupWithoutField)
            } else if !target_ok(rule.next_state, ir.states@) {
                Err(ErrorKind::StateTransitionUnknown)
            } else {
                Ok(y)
            },
        },
    }
}

/// The first failing rule of `rules`, in order.
pub open spec fn rules_result(ir: TemplateIR, rules: Seq<Rule>) -> Result<(), ErrorKind>
    decreases rules.len(),
{
    if rules.len() == 0 {
        Ok(())
    } else {
        match rules_result(ir, rules.drop_last()) {
            Err(k) => Err(k),
            Ok(_) => match rule_result(ir, rules.last()) {
                Err(k) => Err(k),
                Ok(_) => Ok(()),
            },
        }
    }
}

/// The first failing rule of `states`, state by state.
pub open spec fn states_result(ir: TemplateIR, states: Seq<State>) -> Result<(), ErrorKind>
    decreases states.len(),
{
    if states.len() == 0 {
        Ok(())
    } else {
        match states_result(ir, states.drop_last()) {
            Err(k) => Err(k),
            Ok(_) => rules_result(ir, states.last().rules@),
        }
    }
}

/// Whether `ir` compiles, and if not, the kind of the first failure.
pub open spec fn compile_result(ir: TemplateIR) -> Result<(), ErrorKind> {
    match states_result(ir, ir.states@) {
        Err(k) => Err(k),
        Ok(_) => if first_state_index(ir.states@, "Start"@) < 0 {
            Err(ErrorKind::StateMissingStart)
        } else {
            Ok(())
        },
    }
}

/// The number of rules of all states.
pub open spec fn rule_count(ss: Seq<State>) -> nat
    decreases ss.len(),
{
    if ss.len() == 0 {
        0
    } else {
        rule_count(ss.drop_last()) + ss.last().rules@.len()
    }
}

pub open spec fn target_of(next: Option<String>, states: Seq<State>) -> Target {
    match next {
        None => Target::Stay,
        Some(n) => if n@ == "End"@ {
            Target::End
        } else {
            Target::To(first_state_index(states, n@) as usize)
        },
    }
}

/// `c` is `rule` compiled against `ir`.
pub open spec fn compiled_from(c: CompiledRule, rule: Rule, ir: TemplateIR) -> bool {
    &&& rule_result(ir, rule) == Ok::<Seq<char>, ErrorKind>(c.regex@)
    &&& c.line_action == rule.line_action
    &&& c.record_action == rule.record_action
    &&& opt_view(c.next_state) == opt_view(rule.next_state)
    &&& c.target == target_of(rule.next_state, ir.states@)
}

pub open spec fn opt_view(o: Option<String>) -> Option<Seq<char>> {
    match o {
        Some(s) => Some(s@),
        None => None,
    }
}

impl Template {
    /// Rule targets and indexes are in range and each rule's group list is its regex's.
    pub open spec fn wf(&self) -> bool {
        &&& self.start < self.states@.len()
        &&& (self.eof matches Some(e) ==> e < self.states@.len())
        &&& forall|s: int, r: int|
            0 <= s < self.states@.len() && 0 <= r < self.states@[s].rules@.len() ==> {
                let rule = #[trigger] self.states@[s].rules@[r];
                &&& (rule.target matches Target::To(i) ==> i < self.states@.len())
                &&& names_view(rule.groups@) == regex_groups(rule.regex@)
            }
    }

    /// The template compiled from `ir`: states, rules and fields in order.
    pub open spec fn compiled_from_ir(&self, ir: TemplateIR) -> bool {
        &&& self.values@ == ir.values@
        &&& self.states@.len() == ir.states@.len()
        &&& forall|s: int|
            0 <= s < ir.states@.len() ==> {
                &&& (#[trigger] self.states@[s]).name@ == ir.states@[s].name@
                &&& self.states@[s].rules@.len() == ir.states@[s].rules@.len()
                &&& forall|r: int|
                    0 <= r < ir.states@[s].rules@.len() ==> compiled_from(
                        #[trigger] self.states@[s].rules@[r],
                        ir.states@[s].rules@[r],
                        ir,
                    )
            }
        &&& self.budget as int == vstd::math::min(rule_count(ir.states@) as int, usize::MAX as int)
        &&& self.start as int == first_state_index(ir.states@, "Start"@)
        &&& self.eof == (if first_state_index(ir.states@, "EOF"@) >= 0 {
            Some(first_state_index(ir.states@, "EOF"@) as usize)
        } else {
            None
        })
    }
}

fn is_ident_char(c: char) -> (r: bool)
    ensures
        r == is_ident(c),
{
    ('a' <= c && c <= 'z') || ('A' <= c && c <= 'Z') || ('0' <= c && c <= '9') || c == '_'
}

pub(crate) fn find_placeholder(s: &Vec<char>, p: usize) -> (r: Option<usize>)
    requires
        p < s@.len(),
    ensures
        match placeholder_at(s@, p as int) {
            Some(e) => r == Some(e as usize),
            None => r is None,
        },
{
    if s.len() - p < 2 || s[p] != '$' || s[p + 1] != '{' {
        return None;
    }
    let mut q: usize = p + 2;
    while q < s.len() && is_ident_char(s[q])
        invariant
            p + 2 <= q <= s@.len(),
            ident_len(s@, p + 2) == (q - (p + 2)) + ident_len(s@, q as int),
        decreases s@.len() - q,
    {
        q = q + 1;
    }
    assert(ident_len(s@, q as int) == 0);
    if q == p + 2 || q >= s.len() || s[q] != '}' {
        return None;
    }
    Some(q)
}

pub(crate) fn has_pattern_exec(v: &ValueDef) -> (r: bool)
    ensures
        r == has_pattern(*v),
{
    let c = chars_of(v.regex.as_str());
    c.len() > 0
}

fn push_str_chars(out: &mut Vec<char>, s: &str)
    ensures
        final(out)@ == old(out)@ + s@,
{
    let mut v = chars_of(s);
    out.append(&mut v);
}

/// Replaces each `${name}` of `s` by the named group of field `name`.
pub fn substitute(s: &Vec<char>, vals: &Vec<ValueDef>) -> (r: Result<Vec<char>, String>)
    ensures
        match subst_from(s@, 0, vals@) {
            Ok(x) => r is Ok && r.unwrap()@ == x,
            Err(_) => r is Err,
        },
{
    let mut out: Vec<char> = Vec::new();
    let mut p: usize = 0;
    while p < s.len()
        invariant
            p <= s@.len(),
            subst_from(s@, 0, vals@) == prepend(out@, subst_from(s@, p as int, vals@)),
        decreases s@.len() - p,
    {
        match find_placeholder(s, p) {
            None => {
                proof {
                    if let Ok(y) = subst_from(s@, p + 1, vals@) {
                        assert(out@ + (seq![s@[p as int]] + y) =~= out@.push(s@[p as int]) + y);
                    }
                }
                out.push(s[p]);
                p = p + 1;
            },
            Some(end) => {
                let name = crate::text::slice_vec(s.as_slice(), p + 2, end);
                let name_s = string_of(name.as_slice());
                let i = find_value(vals, name_s.as_str());
                if i >= vals.len() || !has_pattern_exec(&vals[i]) {
                    return Err(
                        crate::text::cat(
                            &[
                                "Rule references placeholder '${",
                                name_s.as_str(),
                                "}' but field '",
                                name_s.as_str(),
                                "' is not defined or has no pattern",
                            ],
                        ),
                    );
                }
                let ghost before = out@;
                push_str_chars(&mut out, "(?P<");
                let mut n2 = name;
                out.append(&mut n2);
                push_str_chars(&mut out, ">");
                push_str_chars(&mut out, vals[i].regex.as_str());
                push_str_chars(&mut out, ")");
                proof {
                    let g = group_text(name_s@, vals@[i as int].regex@);
                    assert(out@ =~= before + g);
                    if let Ok(y) = subst_from(s@, end + 1, vals@) {
                        assert(before + (g + y) =~= (before + g) + y);
                    }
                }
                p = end + 1;
            },
        }
    }
    proof {
        assert(out@ + Seq::<char>::empty() =~= out@);
    }
    Ok(out)
}

/// Whether every named group of `groups` is a field of `vals`; if not, the
/// first name that is not.
fn undeclared_group(groups: &Vec<Option<String>>, vals: &Vec<ValueDef>) -> (r: Option<usize>)
    ensures
        r is None == groups_declared(names_view(groups@), vals@),
        r matches Some(i) ==> i < groups@.len(),
{
    let mut i: usize = 0;
    while i < groups.len()
        invariant
            i <= groups@.len(),
            forall|j: int|
                0 <= j < i && (#[trigger] names_view(groups@)[j]) is Some ==> first_value_index(
                    vals@,
                    names_view(groups@)[j].unwrap(),
                ) >= 0,
        decreases groups@.len() - i,
    {
        match &groups[i] {
            Some(n) => {
                if find_value(vals, n.as_str()) >= vals.len() {
                    assert(names_view(groups@)[i as int] == Some(n@));
                    return Some(i);
                }
            },
            None => {},
        }
        i = i + 1;
    }
    None
}

/// Resolves a rule's next state against the states of the template.
fn resolve_target(next: &Option<String>, states: &Vec<State>) -> (r: Option<Target>)
    ensures
        r is Some == target_ok(*next, states@),
        r is Some ==> r.unwrap() == target_of(*next, states@),
{
    match next {
        None => Some(Target::Stay),
        Some(n) => {
            if crate::text::str_eq(n.as_str(), "End") {
                Some(Target::End)
            } else {
                let i = find_state(states, n.as_str());
                if i < states.len() {
                    Some(Target::To(i))
                } else {
                    None
                }
            }
        },
    }
}

fn parse_error(kind: ErrorKind, msg: String) -> (r: ScraperError)
    ensures
        r.kind_spec() == Some(kind),
{
    ScraperError::Parse(kind, msg)
}

fn clone_opt(o: &Option<String>) -> (r: Option<String>)
    ensures
        opt_view(r) == opt_view(*o),
{
    match o {
        Some(s) => Some(s.clone()),
        None => None,
    }
}

/// Compiles one rule of the state `state_name`.
pub fn compile_rule(ir: &TemplateIR, state_name: &str, rule: &Rule) -> (r: Result<
    CompiledRule,
    ScraperError,
>)
    ensures
        match rule_result(*ir, *rule) {
            Ok(_) => r is Ok && compiled_from(r.unwrap(), *rule, *ir) && names_view(
                r.unwrap().groups@,
            ) == regex_groups(r.unwrap().regex@) && (r.unwrap().target matches Target::To(i)
                ==> i < ir.states@.len()),
            Err(k) => r is Err && r->Err_0.kind_spec() == Some(k),
        },
{
    let expanded = match expand_macros(rule.regex.as_str(), &ir.macros) {
        Ok(x) => x,
        Err(e) => {
            let k = match &e {
                ScraperError::Parse(k, _) => *k,
                ScraperError::Io(_) => ErrorKind::MacroUnknown,
            };
            let m = e.message();
            return Err(
                parse_error(
                    k,
                    crate::text::cat(
                        &["Macro expansion error in state '", state_name, "': ", m.as_str()],
                    ),
                ),
            );
        },
    };
    let chars = chars_of(expanded.as_str());
    let final_chars = match substitute(&chars, &ir.values) {
        Ok(x) => x,
        Err(m) => {
            proof {
                lemma_subst_err_kind(chars@, 0, ir.values@);
            }
            return Err(parse_error(ErrorKind::PlaceholderUndefined, m));
        },
    };
    let final_str = string_of(final_chars.as_slice());
    let regex = match Pattern::compile(final_str.as_str()) {
        Ok(p) => p,
        Err(m) => {
            return Err(
                parse_error(
                    ErrorKind::RegexCompile,
                    crate::text::cat(
                        &[
                            "Invalid regex '",
                            final_str.as_str(),
                            "' in state '",
                            state_name,
                            "': ",
                            m.as_str(),
                        ],
                    ),
                ),
            );
        },
    };
    let groups = regex.group_names();
    match undeclared_group(&groups, &ir.values) {
        Some(i) => {
            let n = match &groups[i] {
                Some(n) => n.clone(),
                None => String::new(),
            };
            return Err(
                parse_error(
                    ErrorKind::NamedGroupWithoutField,
                    crate::text::cat(
                        &[
                            "Rule in state '",
                            state_name,
                            "' has named capture group '",
                            n.as_str(),
                            "' but no field of that name is defined",
                        ],
                    ),
                ),
            );
        },
        None => {},
    }
    let target = match resolve_target(&rule.next_state, &ir.states) {
        Some(t) => t,
        None => {
            let n = match &rule.next_state {
                Some(n) => n.clone(),
                None => String::new(),
            };
            return Err(
                parse_error(
                    ErrorKind::StateTransitionUnknown,
                    crate::text::cat(
                        &["State '", state_name, "' transitions to unknown state '", n.as_str(), "'"],
                    ),
                ),
            );
        },
    };
    proof {
        if let Target::To(i) = target {
            crate::types::lemma_first_state_index(ir.states@, rule.next_state.unwrap()@);
        }
    }
    Ok(
        CompiledRule {
            regex,
            groups,
            line_action: rule.line_action,
            record_action: rule.record_action,
            next_state: clone_opt(&rule.next_state),
            target,
        },
    )
}

/// Copies a field definition.
pub fn clone_value(v: &ValueDef) -> (r: ValueDef)
    ensures
        r == *v,
{
    ValueDef {
        name: v.name.clone(),
        regex: v.regex.clone(),
        filldown: v.filldown,
        required: v.required,
        list: v.list,
        type_hint: v.type_hint,
    }
}

/// Copies a list of field definitions.
pub fn clone_values(vs: &Vec<ValueDef>) -> (r: Vec<ValueDef>)
    ensures
        r@ == vs@,
{
    let mut out: Vec<ValueDef> = Vec::new();
    let mut i: usize = 0;
    while i < vs.len()
        invariant
            i <= vs@.len(),
            out@ == vs@.subrange(0, i as int),
        decreases vs@.len() - i,
    {
        out.push(clone_value(&vs[i]));
        i = i + 1;
        assert(out@ =~= vs@.subrange(0, i as int));
    }
    assert(out@ =~= vs@);
    out
}

impl Template {
    /// Compiles a loaded template: per rule, expands macros, substitutes
    /// placeholders, compiles the regex, and checks its named groups and its
    /// next state; then checks that `Start` exists. The first failure, in
    /// state and rule order, is returned.
    pub fn from_ir(ir: TemplateIR) -> (r: Result<Template, ScraperError>)
        ensures
            match compile_result(ir) {
                Ok(_) => r is Ok && r.unwrap().wf() && r.unwrap().compiled_from_ir(ir),
                Err(k) => r is Err && r->Err_0.kind_spec() == Some(k),
            },
    {
        let mut states: Vec<CompiledState> = Vec::new();
        let mut budget: usize = 0;
        let mut s: usize = 0;
        while s < ir.states.len()
            invariant
                s <= ir.states@.len(),
                states@.len() == s,
                budget as int == vstd::math::min(rule_count(ir.states@.subrange(0, s as int)) as int, usize::MAX as int),
                states_result(ir, ir.states@.subrange(0, s as int)) is Ok,
                forall|a: int|
                    0 <= a < s ==> {
                        &&& (#[trigger] states@[a]).name@ == ir.states@[a].name@
                        &&& states@[a].rules@.len() == ir.states@[a].rules@.len()
                        &&& forall|r: int|
                            0 <= r < ir.states@[a].rules@.len() ==> {
                                &&& compiled_from(
                                    #[trigger] states@[a].rules@[r],
                                    ir.states@[a].rules@[r],
                                    ir,
                                )
                                &&& names_view(states@[a].rules@[r].groups@) == regex_groups(
                                    states@[a].rules@[r].regex@,
                                )
                                &&& (states@[a].rules@[r].target matches Target::To(i) ==> i
                                    < ir.states@.len())
                            }
                    },
            decreases ir.states@.len() - s,
        {
            let st = &ir.states[s];
            let mut rules: Vec<CompiledRule> = Vec::new();
            let mut k: usize = 0;
            proof {
                assert(ir.states@.subrange(0, s + 1).drop_last() =~= ir.states@.subrange(0, s as int));
            }
            while k < st.rules.len()
                invariant
                    s < ir.states@.len(),
                    states_result(ir, ir.states@.subrange(0, s as int)) is Ok,
                    ir.states@.subrange(0, s + 1).drop_last() == ir.states@.subrange(0, s as int),
                    st == ir.states@[s as int],
                    k <= st.rules@.len(),
                    rules@.len() == k,
                    rules_result(ir, st.rules@.subrange(0, k as int)) is Ok,
                    forall|r: int|
                        0 <= r < k ==> {
                            &&& compiled_from(#[trigger] rules@[r], st.rules@[r], ir)
                            &&& names_view(rules@[r].groups@) == regex_groups(rules@[r].regex@)
                            &&& (rules@[r].target matches Target::To(i) ==> i < ir.states@.len())
                        },
                decreases st.rules@.len() - k,
            {
                proof {
                    assert(st.rules@.subrange(0, k + 1).drop_last() =~= st.rules@.subrange(0, k as int));
                }
                match compile_rule(&ir, st.name.as_str(), &st.rules[k]) {
                    Ok(c) => {
                        rules.push(c);
                    },
                    Err(e) => {
                        proof {
                            assert(st.rules@.subrange(0, k + 1).last() == st.rules@[k as int]);
                            assert(rules_result(ir, st.rules@.subrange(0, k + 1)) == Err::<(), ErrorKind>(e.kind_spec().unwrap()));
                            assert(ir.states@.subrange(0, s + 1).last() == st);
                            lemma_rules_prefix_err(ir, st.rules@, k + 1);
                            assert(st.rules@.subrange(0, st.rules@.len() as int) =~= st.rules@);
                            assert(rules_result(ir, st.rules@) == Err::<(), ErrorKind>(e.kind_spec().unwrap()));
                            assert(states_result(ir, ir.states@.subrange(0, s + 1)) == Err::<(), ErrorKind>(e.kind_spec().unwrap()));
                            lemma_states_prefix_err(ir, ir.states@, s + 1);
                            assert(compile_result(ir) == Err::<(), ErrorKind>(e.kind_spec().unwrap()));
                            assert(ir.states@.subrange(0, ir.states@.len() as int) =~= ir.states@);
                        }
                        return Err(e);
                    },
                }
                k = k + 1;
            }
            proof {
                assert(st.rules@.subrange(0, k as int) =~= st.rules@);
            }
            budget = if budget < usize::MAX - rules.len() {
                budget + rules.len()
            } else {
                usize::MAX
            };
            states.push(CompiledState { name: st.name.clone(), rules });
            s = s + 1;
            proof {
                assert forall|a: int| 0 <= a < s implies {
                    &&& (#[trigger] states@[a]).name@ == ir.states@[a].name@
                    &&& states@[a].rules@.len() == ir.states@[a].rules@.len()
                    &&& forall|r: int|
                        0 <= r < ir.states@[a].rules@.len() ==> {
                            &&& compiled_from(
                                #[trigger] states@[a].rules@[r],
                                ir.states@[a].rules@[r],
                                ir,
                            )
                            &&& names_view(states@[a].rules@[r].groups@) == regex_groups(
                                states@[a].rules@[r].regex@,
                            )
                            &&& (states@[a].rules@[r].target matches Target::To(i) ==> i
                                < ir.states@.len())
                        }
                } by {}
            }
        }
        proof {
            assert(ir.states@.subrange(0, s as int) =~= ir.states@);
        }
        let start = find_state(&ir.states, "Start");
        if start >= ir.states.len() {
            return Err(parse_error(ErrorKind::StateMissingStart, lit("Template missing 'Start' state")));
        }
        let e = find_state(&ir.states, "EOF");
        let eof = if e < ir.states.len() {
            Some(e)
        } else {
            None
        };
        let values = clone_values(&ir.values);
        let t = Template { states, values, start, eof, budget };
        proof {
            crate::types::lemma_first_state_index(ir.states@, "Start"@);
            assert(t.compiled_from_ir(ir));
        }
        Ok(t)
    }

    /// The source of the final regex of rule `idx` of the state `state`.
    pub fn rule_regex(&self, state: &str, idx: usize) -> (r: Option<&str>)
        ensures
            r is Some ==> exists|s: int|
                0 <= s < self.states@.len() && (#[trigger] self.states@[s]).name@ == state@ && idx
                    < self.states@[s].rules@.len() && r.unwrap()@ == self.states@[s].rules@[idx as int].regex@,
    {
        let mut s: usize = 0;
        while s < self.states.len()
            decreases self.states@.len() - s,
        {
            if crate::text::str_eq(self.states[s].name.as_str(), state) {
                if idx < self.states[s].rules.len() {
                    return Some(self.states[s].rules[idx].regex.as_str());
                }
                return None;
            }
            s = s + 1;
        }
        None
    }
}

proof fn lemma_subst_err_kind(s: Seq<char>, p: int, vals: Seq<ValueDef>)
    ensures
        subst_from(s, p, vals) is Err ==> subst_from(s, p, vals) == Err::<Seq<char>, ErrorKind>(
            ErrorKind::PlaceholderUndefined,
        ),
    decreases s.len() - p,
{
    if 0 <= p < s.len() {
        match placeholder_at(s, p) {
            None => lemma_subst_err_kind(s, p + 1, vals),
            Some(end) => lemma_subst_err_kind(s, end + 1, vals),
        }
    }
}

proof fn lemma_rules_prefix_err(ir: TemplateIR, rules: Seq<Rule>, k: int)
    requires
        0 <= k <= rules.len(),
        rules_result(ir, rules.subrange(0, k)) is Err,
    ensures
        rules_result(ir, rules) == rules_result(ir, rules.subrange(0, k)),
    decreases rules.len() - k,
{
    if k < rules.len() {
        assert(rules.subrange(0, k + 1).drop_last() =~= rules.subrange(0, k));
        lemma_rules_prefix_err(ir, rules, k + 1);
    } else {
        assert(rules.subrange(0, k) =~= rules);
    }
}

proof fn lemma_states_prefix_err(ir: TemplateIR, states: Seq<State>, k: int)
    requires
        0 <= k <= states.len(),
        states_result(ir, states.subrange(0, k)) is Err,
    ensures
        states_result(ir, states) == states_result(ir, states.subrange(0, k)),
    decreases states.len() - k,
{
    if k < states.len() {
        assert(states.subrange(0, k + 1).drop_last() =~= states.subrange(0, k));
        lemma_states_prefix_err(ir, states, k + 1);
    } else {
        assert(states.subrange(0, k) =~= states);
    }
}

} // verus!
