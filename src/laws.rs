//! Properties of the engine that hold for every template and input.
use vstd::prelude::*;
use crate::compile::{Target, Template};
use crate::convert::{scalar_of, FieldValue, Scalar};
use crate::fsm::{apply_record, dispatch, fire, finish, next_of, parse_spec, run_lines, Mach};
use crate::pattern::regex_search;
use crate::records::{entry_of, is_filldown, kept_after_reset, lookup, missing_required, record_of, Entry, Record};
use crate::types::{Action, ErrorKind, ValueDef};

verus! {

/// A scalar as plain values: whether it is an integer, its text, its value.
pub open spec fn scalar_view(s: Scalar) -> (bool, Seq<char>, int) {
    match s {
        Scalar::Str(x) => (false, x@, 0),
        Scalar::Int(n) => (true, Seq::empty(), n as int),
    }
}

/// An entry as plain values: whether it is a list, and its scalars.
pub open spec fn entry_view(e: FieldValue) -> (bool, Seq<(bool, Seq<char>, int)>) {
    match e {
        FieldValue::One(s) => (false, seq![scalar_view(s)]),
        FieldValue::List(v) => (true, v@.map_values(|s: Scalar| scalar_view(s))),
    }
}

/// A record as plain values.
pub open spec fn record_view(r: Record) -> Seq<(Seq<char>, (bool, Seq<(bool, Seq<char>, int)>))> {
    r.fields@.map_values(|p: (String, FieldValue)| (p.0@, entry_view(p.1)))
}

/// A field that is not a list never becomes an array in a record.
pub proof fn lemma_scalar_field_not_list(r: Record, es: Seq<Entry>, defs: Seq<ValueDef>, i: int)
    requires
        record_of(r, es, defs),
        0 <= i < defs.len(),
        !defs[i].list,
    ensures
        r.fields@[i].1 is One,
{
    assert(entry_of(defs[i], lookup(es, defs[i].name@), r.fields@[i].1));
}

proof fn lemma_scalar_unique(a: Scalar, b: Scalar, raw: Seq<char>, hint: Option<crate::types::FieldType>)
    requires
        scalar_of(a, raw, hint),
        scalar_of(b, raw, hint),
    ensures
        scalar_view(a) == scalar_view(b),
{
}

/// The buffer contents determine the record: two records built from the same
/// entries for the same fields are equal as values. With `parse_spec` being a
/// function of the template and the input, re-running a parse yields the same
/// record sequence.
pub proof fn lemma_record_determined(r1: Record, r2: Record, es: Seq<Entry>, defs: Seq<ValueDef>)
    requires
        record_of(r1, es, defs),
        record_of(r2, es, defs),
    ensures
        record_view(r1) == record_view(r2),
{
    assert forall|i: int| 0 <= i < defs.len() implies #[trigger] record_view(r1)[i] == record_view(r2)[i] by {
        let d = defs[i];
        let got = lookup(es, d.name@);
        let e1 = r1.fields@[i].1;
        let e2 = r2.fields@[i].1;
        assert(entry_of(d, got, e1));
        assert(entry_of(d, got, e2));
        match got {
            Some(vs) => {
                if d.list {
                    let v1 = e1->List_0@;
                    let v2 = e2->List_0@;
                    assert forall|j: int| 0 <= j < vs.len() implies scalar_view(#[trigger] v1[j]) == scalar_view(v2[j]) by {
                        lemma_scalar_unique(v1[j], v2[j], vs[j], d.type_hint);
                    }
                    assert(v1.map_values(|s: Scalar| scalar_view(s)) =~= v2.map_values(|s: Scalar| scalar_view(s)));
                } else {
                    lemma_scalar_unique(e1->One_0, e2->One_0, vs.last(), d.type_hint);
                }
            },
            None => {
                if d.list {
                    assert(e1->List_0@.map_values(|s: Scalar| scalar_view(s)) =~= e2->List_0@.map_values(
                        |s: Scalar| scalar_view(s),
                    ));
                } else {
                    assert(e1->One_0->Str_0@ =~= e2->One_0->Str_0@);
                }
            },
        }
        assert(entry_view(e1) == entry_view(e2));
        assert(record_view(r1)[i] == (r1.fields@[i].0@, entry_view(e1)));
        assert(record_view(r2)[i] == (r2.fields@[i].0@, entry_view(e2)));
    }
    assert(record_view(r1) =~= record_view(r2));
}

proof fn lemma_lookup_push(es: Seq<Entry>, x: Entry, name: Seq<char>)
    ensures
        lookup(es.push(x), name) == (if lookup(es, name) is Some {
            lookup(es, name)
        } else if x.0 == name {
            Some(x.1)
        } else {
            None
        }),
{
    assert(es.push(x).drop_last() =~= es);
    crate::records::lemma_entry_index(es, name);
}

/// After an emission or a `Clear`, a filldown field keeps exactly the
/// captures it had, and any other field has none.
pub proof fn lemma_reset_keeps_filldown(es: Seq<Entry>, defs: Seq<ValueDef>, name: Seq<char>)
    ensures
        is_filldown(defs, name) ==> lookup(kept_after_reset(es, defs), name) == lookup(es, name),
        !is_filldown(defs, name) ==> lookup(kept_after_reset(es, defs), name) is None,
    decreases es.len(),
{
    if es.len() > 0 {
        let dl = es.drop_last();
        let x = es.last();
        lemma_reset_keeps_filldown(dl, defs, name);
        assert(dl.push(x) =~= es);
        lemma_lookup_push(dl, x, name);
        if is_filldown(defs, x.0) {
            lemma_lookup_push(kept_after_reset(dl, defs), x, name);
        }
    } else {
        crate::records::lemma_entry_index(es, name);
        crate::records::lemma_entry_index(kept_after_reset(es, defs), name);
    }
}

/// `Clear` keeps the filldown captures, `ClearAll` keeps none; neither
/// emits, and both leave the buffer clean.
pub proof fn lemma_clear_and_clear_all(m: Mach, defs: Seq<ValueDef>, name: Seq<char>)
    ensures
        apply_record(m, Action::Clear, defs) matches Some(c) && c.3 == m.3 && !c.2 && (is_filldown(
            defs,
            name,
        ) ==> lookup(c.1, name) == lookup(m.1, name)) && (!is_filldown(defs, name) ==> lookup(
            c.1,
            name,
        ) is None),
        apply_record(m, Action::ClearAll, defs) matches Some(c) && c.3 == m.3 && !c.2 && lookup(
            c.1,
            name,
        ) is None,
{
    lemma_reset_keeps_filldown(m.1, defs, name);
    crate::records::lemma_entry_index(Seq::<Entry>::empty(), name);
}

/// Every emitted buffer has a capture for each required field.
pub open spec fn required_ok(m: Mach, defs: Seq<ValueDef>) -> bool {
    forall|k: int| 0 <= k < m.3.len() ==> !missing_required(#[trigger] m.3[k], defs)
}

proof fn lemma_apply_record_required(m: Mach, a: Action, defs: Seq<ValueDef>)
    requires
        required_ok(m, defs),
    ensures
        apply_record(m, a, defs) matches Some(m2) ==> required_ok(m2, defs),
{
    if let Some(m2) = apply_record(m, a, defs) {
        assert forall|k: int| 0 <= k < m2.3.len() implies !missing_required(#[trigger] m2.3[k], defs) by {
            if k < m.3.len() {
                assert(m2.3[k] == m.3[k]);
            }
        }
    }
}

proof fn lemma_dispatch_required(t: Template, line: Seq<char>, m: Mach, ri: int, budget: nat)
    requires
        required_ok(m, t.values@),
    ensures
        dispatch(t, line, m, ri, budget) matches Ok((m2, _)) ==> required_ok(m2, t.values@),
    decreases budget, t.states@[m.0].rules@.len() - ri,
{
    if !(0 <= m.0 < t.states@.len()) || ri < 0 || ri >= t.states@[m.0].rules@.len() {
    } else {
        let rule = t.states@[m.0].rules@[ri];
        match regex_search(rule.regex@, line) {
            None => lemma_dispatch_required(t, line, m, ri + 1, budget),
            Some(spans) => {
                let caps = crate::fsm::caps_upto(crate::pattern::names_view(rule.groups@), spans, spans.len() as int);
                let m1 = (m.0, crate::fsm::insert_caps(m.1, caps, t.values@), m.2 || caps.len() > 0, m.3);
                lemma_apply_record_required(m1, rule.record_action, t.values@);
                match fire(t, m, rule, spans) {
                    None => {},
                    Some(m2) => {
                        if rule.target != Target::End {
                            let m3 = (next_of(rule.target, m.0), m2.1, m2.2, m2.3);
                            if rule.line_action == Action::Continue {
                                if m3.0 != m.0 {
                                    if budget > 0 {
                                        lemma_dispatch_required(t, line, m3, 0, (budget - 1) as nat);
                                    }
                                } else {
                                    lemma_dispatch_required(t, line, m3, ri + 1, budget);
                                }
                            }
                        }
                    },
                }
            },
        }
    }
}

proof fn lemma_run_lines_required(t: Template, lines: Seq<Seq<char>>, i: int, m: Mach)
    requires
        required_ok(m, t.values@),
    ensures
        run_lines(t, lines, i, m) matches Ok(m2) ==> required_ok(m2, t.values@),
    decreases lines.len() - i,
{
    if 0 <= i < lines.len() {
        lemma_dispatch_required(t, lines[i], m, 0, t.budget as nat);
        if let Ok((m2, ended)) = dispatch(t, lines[i], m, 0, t.budget as nat) {
            if !ended {
                lemma_run_lines_required(t, lines, i + 1, m2);
            }
        }
    }
}

/// No emitted record lacks a required field: every buffer a parse emits has
/// a capture for each field marked required.
pub proof fn lemma_parse_required_present(t: Template, input: Seq<char>)
    ensures
        parse_spec(t, input) matches Ok(em) ==> forall|k: int|
            0 <= k < em.len() ==> !missing_required(#[trigger] em[k], t.values@),
{
    let init: Mach = (t.start as int, Seq::empty(), false, Seq::empty());
    let lines = crate::fsm::lines_of(input);
    lemma_run_lines_required(t, lines, 0, init);
    if let Ok(m) = run_lines(t, lines, 0, init) {
        match t.eof {
            Some(e) => {
                lemma_dispatch_required(t, Seq::empty(), (e as int, m.1, m.2, m.3), 0, t.budget as nat);
            },
            None => {
                lemma_apply_record_required(m, Action::Record, t.values@);
            },
        }
    }
}

/// A rule that fires with `Next` (and does not end the parse) finishes the
/// line: the next match is attempted on the following line.
pub proof fn lemma_next_consumes_one_line(t: Template, lines: Seq<Seq<char>>, i: int, m: Mach, ri: int, budget: nat)
    requires
        0 <= i < lines.len(),
        0 <= m.0 < t.states@.len(),
        0 <= ri < t.states@[m.0].rules@.len(),
        regex_search(t.states@[m.0].rules@[ri].regex@, lines[i]) is Some,
        fire(t, m, t.states@[m.0].rules@[ri], regex_search(t.states@[m.0].rules@[ri].regex@, lines[i]).unwrap()) is Some,
        t.states@[m.0].rules@[ri].target != Target::End,
        t.states@[m.0].rules@[ri].line_action != Action::Continue,
    ensures
        ({
            let rule = t.states@[m.0].rules@[ri];
            let m2 = fire(t, m, rule, regex_search(rule.regex@, lines[i]).unwrap()).unwrap();
            let m3 = (next_of(rule.target, m.0), m2.1, m2.2, m2.3);
            &&& dispatch(t, lines[i], m, ri, budget) == Ok::<(Mach, bool), ErrorKind>((m3, false))
            &&& (dispatch(t, lines[i], m, 0, t.budget as nat) == Ok::<(Mach, bool), ErrorKind>((m3, false))
                ==> run_lines(t, lines, i, m) == run_lines(t, lines, i + 1, m3))
        }),
{
}

/// A rule that fires with `Continue` (and does not end the parse) keeps the
/// line: the next rule, or the new state's first rule, is tried on the same
/// line.
pub proof fn lemma_continue_keeps_line(t: Template, line: Seq<char>, m: Mach, ri: int, budget: nat)
    requires
        0 <= m.0 < t.states@.len(),
        0 <= ri < t.states@[m.0].rules@.len(),
        regex_search(t.states@[m.0].rules@[ri].regex@, line) is Some,
        fire(t, m, t.states@[m.0].rules@[ri], regex_search(t.states@[m.0].rules@[ri].regex@, line).unwrap()) is Some,
        t.states@[m.0].rules@[ri].target != Target::End,
        t.states@[m.0].rules@[ri].line_action == Action::Continue,
    ensures
        ({
            let rule = t.states@[m.0].rules@[ri];
            let m2 = fire(t, m, rule, regex_search(rule.regex@, line).unwrap()).unwrap();
            let m3 = (next_of(rule.target, m.0), m2.1, m2.2, m2.3);
            &&& m3.0 == m.0 ==> dispatch(t, line, m, ri, budget) == dispatch(t, line, m3, ri + 1, budget)
            &&& m3.0 != m.0 && budget > 0 ==> dispatch(t, line, m, ri, budget) == dispatch(
                t,
                line,
                m3,
                0,
                (budget - 1) as nat,
            )
        }),
{
}

/// Capturing a value for one field leaves every other field's captures as
/// they were; together with `lemma_reset_keeps_filldown` this carries a
/// filldown value from one record to the next unless a firing updates or
/// clears it.
pub proof fn lemma_capture_leaves_others(es: Seq<Entry>, name: Seq<char>, v: Seq<char>, is_list: bool, other: Seq<char>)
    requires
        other != name,
    ensures
        lookup(crate::records::with_capture(es, name, v, is_list), other) == lookup(es, other),
{
    crate::records::lemma_entry_index(es, name);
    let i = crate::records::entry_index(es, name);
    if i >= 0 {
        let u = crate::records::with_capture(es, name, v, is_list);
        assert forall|j: int| 0 <= j < es.len() implies (#[trigger] u[j]).0 == es[j].0 by {}
        crate::records::lemma_entry_index_same_names(u, es, other);
        crate::records::lemma_entry_index(es, other);
        crate::records::lemma_entry_index(u, other);
        let k = crate::records::entry_index(es, other);
        if k >= 0 {
            assert(k != i);
        }
    } else {
        lemma_lookup_push(es, (name, seq![v]), other);
    }
}

pub open spec fn value_view(v: ValueDef) -> (Seq<char>, Seq<char>, bool, bool, bool, Option<crate::types::FieldType>) {
    (v.name@, v.regex@, v.filldown, v.required, v.list, v.type_hint)
}

pub open spec fn rule_view(r: crate::types::Rule) -> (Seq<char>, Action, Action, Option<Seq<char>>) {
    (r.regex@, r.line_action, r.record_action, crate::template::modern::opt_view(r.next_state))
}

pub open spec fn state_view(st: crate::types::State) -> (Seq<char>, Seq<(Seq<char>, Action, Action, Option<Seq<char>>)>) {
    (st.name@, st.rules@.map_values(|r: crate::types::Rule| rule_view(r)))
}

/// A loaded template as plain values: fields, states with their rules, and
/// local macros, in order.
pub open spec fn ir_view(ir: crate::types::TemplateIR) -> (
    Seq<(Seq<char>, Seq<char>, bool, bool, bool, Option<crate::types::FieldType>)>,
    Seq<(Seq<char>, Seq<(Seq<char>, Action, Action, Option<Seq<char>>)>)>,
    Seq<(Seq<char>, Seq<char>)>,
) {
    (
        ir.values@.map_values(|v: ValueDef| value_view(v)),
        ir.states@.map_values(|st: crate::types::State| state_view(st)),
        crate::template::modern::macros_view(ir.macros@),
    )
}

/// A structured document describes one template: any two lowerings of it
/// are equal as values. Since converting a legacy template yields a
/// document that lowers to that very template (the contract of
/// `template_ir_to_modern_doc`), loading the converted document gives back
/// the legacy template, field by field and rule by rule.
pub proof fn lemma_lowering_unique(
    d: crate::template::modern::ModernTemplateDoc,
    a: crate::types::TemplateIR,
    b: crate::types::TemplateIR,
)
    requires
        crate::template::modern::lowered(d, a),
        crate::template::modern::lowered(d, b),
    ensures
        ir_view(a) == ir_view(b),
{
    assert forall|i: int| 0 <= i < a.values@.len() implies #[trigger] value_view(a.values@[i]) == value_view(b.values@[i]) by {
        assert(crate::template::modern::lowered_value(d.fields@[i], a.values@[i]));
        assert(crate::template::modern::lowered_value(d.fields@[i], b.values@[i]));
    }
    assert(ir_view(a).0 =~= ir_view(b).0);
    assert(a.states@.len() == b.states@.len());
    assert forall|i: int| 0 <= i < a.states@.len() implies #[trigger] state_view(a.states@[i]) == state_view(b.states@[i]) by {
        let ra = a.states@[i].rules@;
        let rb = b.states@[i].rules@;
        if crate::template::modern::nonempty_states(d.states) {
            let ss = d.states.unwrap()@;
            assert forall|j: int| 0 <= j < ra.len() implies #[trigger] rule_view(ra[j]) == rule_view(rb[j]) by {
                assert(crate::template::modern::lowered_rule(ss[i].1@[j], ra[j]));
                assert(crate::template::modern::lowered_rule(ss[i].1@[j], rb[j]));
            }
        } else {
            let ps = if d.patterns is Some {
                d.patterns.unwrap()@
            } else {
                Seq::empty()
            };
            assert forall|j: int| 0 <= j < ra.len() implies #[trigger] rule_view(ra[j]) == rule_view(rb[j]) by {
                assert(crate::template::modern::lowered_pattern(ps[j], ra[j]));
                assert(crate::template::modern::lowered_pattern(ps[j], rb[j]));
            }
        }
        assert(ra.map_values(|r: crate::types::Rule| rule_view(r)) =~= rb.map_values(|r: crate::types::Rule| rule_view(r)));
    }
    assert(ir_view(a).1 =~= ir_view(b).1);
}

/// The rule fires of one line, in order: each fire but the last is a
/// `Continue` that does not end the parse, the next fire starts in the state
/// it left, and after a `Continue` that keeps the state the next fire is a
/// later rule. (So a `Next` fire, or one that ends the parse, is the last on
/// its line: the next match is tried on the following line.)
pub proof fn lemma_line_log_shape(t: Template, line: Seq<char>, m: Mach, ri: int, budget: nat)
    requires
        0 <= ri,
    ensures
        ({
            let lg = crate::fsm::dispatch_log(t, line, m, ri, budget);
            &&& lg.len() > 0 ==> lg[0].1 == m.0 && lg[0].0 >= ri
            &&& forall|k: int|
                0 <= k < lg.len() - 1 ==> (#[trigger] lg[k]).3 == Action::Continue && lg[k].2 == Some(lg[k + 1].1)
                    && (lg[k].2 == Some(lg[k].1) ==> lg[k + 1].0 > lg[k].0)
        }),
    decreases budget, t.states@[m.0].rules@.len() - ri,
{
    if !(0 <= m.0 < t.states@.len()) || ri >= t.states@[m.0].rules@.len() {
    } else {
        let rule = t.states@[m.0].rules@[ri];
        match regex_search(rule.regex@, line) {
            None => lemma_line_log_shape(t, line, m, ri + 1, budget),
            Some(spans) => {
                match fire(t, m, rule, spans) {
                    None => {},
                    Some(m2) => {
                        if rule.target != Target::End {
                            let m3 = (next_of(rule.target, m.0), m2.1, m2.2, m2.3);
                            if rule.line_action == Action::Continue {
                                let lg = crate::fsm::dispatch_log(t, line, m, ri, budget);
                                if m3.0 != m.0 {
                                    if budget > 0 {
                                        let rest = crate::fsm::dispatch_log(t, line, m3, 0, (budget - 1) as nat);
                                        lemma_line_log_shape(t, line, m3, 0, (budget - 1) as nat);
                                        assert forall|k: int| 0 <= k < lg.len() - 1 implies (#[trigger] lg[k]).3 == Action::Continue
                                            && lg[k].2 == Some(lg[k + 1].1) && (lg[k].2 == Some(lg[k].1) ==> lg[k + 1].0 > lg[k].0) by {
                                            if k > 0 {
                                                assert(lg[k] == rest[k - 1]);
                                                assert(lg[k + 1] == rest[k]);
                                            } else {
                                                assert(lg[1] == rest[0]);
                                            }
                                        }
                                    }
                                } else {
                                    let rest = crate::fsm::dispatch_log(t, line, m3, ri + 1, budget);
                                    lemma_line_log_shape(t, line, m3, ri + 1, budget);
                                    assert forall|k: int| 0 <= k < lg.len() - 1 implies (#[trigger] lg[k]).3 == Action::Continue
                                        && lg[k].2 == Some(lg[k + 1].1) && (lg[k].2 == Some(lg[k].1) ==> lg[k + 1].0 > lg[k].0) by {
                                        if k > 0 {
                                            assert(lg[k] == rest[k - 1]);
                                            assert(lg[k + 1] == rest[k]);
                                        } else {
                                            assert(lg[1] == rest[0]);
                                        }
                                    }
                                }
                            }
                        }
                    },
                }
            },
        }
    }
}

} // verus!
