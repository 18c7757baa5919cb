//! Conversion of a loaded template into a structured document.
use vstd::prelude::*;
use crate::template::modern::{
    lowered, macros_view, opt_view, ActionDef, FieldDef, FieldTypeDef, LineActionDef,
    ModernTemplateDoc, RecordActionDef, StateRuleDef,
};
use crate::types::{Action, FieldType, Rule, TemplateIR, ValueDef};

verus! {

/// A rule converts when its record action exists in documents (not
/// `ClearAll`, not `Error`) and its line action is `Next` or `Continue`.
pub open spec fn rule_convertible(r: Rule) -> bool {
    &&& (r.line_action == Action::Next || r.line_action == Action::Continue)
    &&& (r.record_action == Action::Next || r.record_action == Action::Record || r.record_action == Action::Clear)
}

pub open spec fn ir_convertible(ir: TemplateIR) -> bool {
    forall|i: int, j: int|
        0 <= i < ir.states@.len() && 0 <= j < ir.states@[i].rules@.len() ==> rule_convertible(
            #[trigger] ir.states@[i].rules@[j],
        )
}

fn clone_opt(o: &Option<String>) -> (r: Option<String>)
    ensures
        opt_view(r) == opt_view(*o),
{
    match o {
        Some(s) => Some(s.clone()),
        None => None,
    }
}

fn field_def_of(v: &ValueDef) -> (r: (String, FieldDef))
    ensures
        r.0@ == v.name@,
        r.1.pattern is Some && r.1.pattern.unwrap()@ == v.regex@,
        r.1.filldown == v.filldown && r.1.required == v.required && r.1.list == v.list,
        crate::template::modern::hint_of(r.1.field_type) == v.type_hint,
{
    let t = match v.type_hint {
        Some(FieldType::Int) => Some(FieldTypeDef::Int),
        Some(FieldType::String) => Some(FieldTypeDef::String),
        None => None,
    };
    (
        v.name.clone(),
        FieldDef { field_type: t, pattern: Some(v.regex.clone()), filldown: v.filldown, required: v.required, list: v.list },
    )
}

fn rule_def_of(r: &Rule) -> (d: StateRuleDef)
    requires
        rule_convertible(*r),
    ensures
        crate::template::modern::lowered_rule(d, *r),
{
    let line = match r.line_action {
        Action::Continue => Some(LineActionDef::Continue),
        _ => None,
    };
    let record = match r.record_action {
        Action::Record => Some(RecordActionDef::Record),
        Action::Clear => Some(RecordActionDef::Clear),
        _ => None,
    };
    let next = clone_opt(&r.next_state);
    let action = if line.is_none() && record.is_none() && next.is_none() {
        None
    } else {
        Some(ActionDef { line, record, next })
    };
    StateRuleDef { regex: r.regex.clone(), action }
}

/// The structured document of a loaded template: every field with its
/// pattern and type, every state with its rules, in order. Lowering the
/// document gives the template back (see `laws::lemma_lowering_unique`);
/// a template without states gives a document without states.
pub fn template_ir_to_modern_doc(ir: &TemplateIR) -> (r: ModernTemplateDoc)
    requires
        ir_convertible(*ir),
    ensures
        ir.states@.len() > 0 ==> lowered(r, *ir),
        r.version == 1,
        r.states is Some && r.states.unwrap()@.len() == ir.states@.len(),
        r.patterns is None,
{
    let mut fields: Vec<(String, FieldDef)> = Vec::new();
    let mut i: usize = 0;
    while i < ir.values.len()
        invariant
            i <= ir.values@.len(),
            fields@.len() == i,
            forall|k: int| 0 <= k < i ==> crate::template::modern::lowered_value(#[trigger] fields@[k], ir.values@[k]),
        decreases ir.values@.len() - i,
    {
        fields.push(field_def_of(&ir.values[i]));
        i = i + 1;
    }
    let mut states: Vec<(String, Vec<StateRuleDef>)> = Vec::new();
    let mut s: usize = 0;
    while s < ir.states.len()
        invariant
            ir_convertible(*ir),
            s <= ir.states@.len(),
            states@.len() == s,
            forall|x: int|
                0 <= x < s ==> {
                    &&& ir.states@[x].name@ == (#[trigger] states@[x]).0@
                    &&& ir.states@[x].rules@.len() == states@[x].1@.len()
                    &&& forall|j: int|
                        0 <= j < states@[x].1@.len() ==> crate::template::modern::lowered_rule(
                            #[trigger] states@[x].1@[j],
                            ir.states@[x].rules@[j],
                        )
                },
        decreases ir.states@.len() - s,
    {
        let st = &ir.states[s];
        let mut rules: Vec<StateRuleDef> = Vec::new();
        let mut j: usize = 0;
        while j < st.rules.len()
            invariant
                ir_convertible(*ir),
                s < ir.states@.len(),
                *st == ir.states@[s as int],
                j <= st.rules@.len(),
                rules@.len() == j,
                forall|k: int| 0 <= k < j ==> crate::template::modern::lowered_rule(#[trigger] rules@[k], st.rules@[k]),
            decreases st.rules@.len() - j,
        {
            proof {
                assert(rule_convertible(ir.states@[s as int].rules@[j as int]));
            }
            rules.push(rule_def_of(&st.rules[j]));
            j = j + 1;
        }
        states.push((st.name.clone(), rules));
        s = s + 1;
    }
    let mut macros: Vec<(String, String)> = Vec::new();
    let mut m: usize = 0;
    while m < ir.macros.len()
        invariant
            m <= ir.macros@.len(),
            macros_view(macros@) == macros_view(ir.macros@).subrange(0, m as int),
        decreases ir.macros@.len() - m,
    {
        let ghost prev = macros@;
        macros.push((ir.macros[m].0.clone(), ir.macros[m].1.clone()));
        m = m + 1;
        proof {
            assert(macros_view(macros@) =~= macros_view(prev).push(macros_view(ir.macros@)[m - 1]));
            assert(macros_view(macros@) =~= macros_view(ir.macros@).subrange(0, m as int));
        }
    }
    proof {
        assert(macros_view(ir.macros@).subrange(0, m as int) =~= macros_view(ir.macros@));
    }
    let doc = ModernTemplateDoc { version: 1, macros, fields, states: Some(states), patterns: None };
    doc
}

} // verus!
