//! The FSM engine: rule dispatch over input lines.
use vstd::prelude::*;
use vstd::utf8::encode_utf8;
use vstd::string::StringSliceAdditionalSpecFns;
use crate::compile::{CompiledRule, Target, Template};
use crate::convert::convert_scalar;
use crate::debug::{span_ok, CaptureSpan, DebugReport, EmittedRecord, LineMatch, TraceEvent, TraceEventType, matches_ok};
use crate::pattern::{names_view, regex_search, spans_view, Span};
use crate::records::{
    kept_after_reset, missing_required, record_of, with_capture, Entry, Record, RecordBuffer,
};
use crate::text::{chars_of, lit, string_of};
use crate::types::{first_value_index, Action, ErrorKind, ScraperError, ValueDef};

verus! {

/// The machine between rule fires: current state, buffer entries, whether
/// the buffer holds unemitted captures, and the buffers emitted so far.
pub type Mach = (int, Seq<Entry>, bool, Seq<Seq<Entry>>);

/// The (name, text) pairs of the named groups that took part in a match.
pub open spec fn caps_upto(
    groups: Seq<Option<Seq<char>>>,
    spans: Seq<Option<(nat, nat, Seq<char>)>>,
    k: int,
) -> Seq<(Seq<char>, Seq<char>)>
    decreases k,
{
    if k <= 0 {
        Seq::empty()
    } else {
        let prev = caps_upto(groups, spans, k - 1);
        if groups[k - 1] is Some && spans[k - 1] is Some {
            prev.push((groups[k - 1].unwrap(), spans[k - 1].unwrap().2))
        } else {
            prev
        }
    }
}

/// Whether the field `name` collects a list.
pub open spec fn list_flag(defs: Seq<ValueDef>, name: Seq<char>) -> bool {
    let i = first_value_index(defs, name);
    i >= 0 && defs[i].list
}

/// The buffer after inserting `caps` in order.
pub open spec fn insert_caps(
    buf: Seq<Entry>,
    caps: Seq<(Seq<char>, Seq<char>)>,
    defs: Seq<ValueDef>,
) -> Seq<Entry>
    decreases caps.len(),
{
    if caps.len() == 0 {
        buf
    } else {
        let b = insert_caps(buf, caps.drop_last(), defs);
        with_capture(b, caps.last().0, caps.last().1, list_flag(defs, caps.last().0))
    }
}

/// The machine after a record action; `None` when the action aborts.
pub open spec fn apply_record(m: Mach, a: Action, defs: Seq<ValueDef>) -> Option<Mach> {
    match a {
        Action::Record => if m.2 {
            if missing_required(m.1, defs) {
                Some((m.0, kept_after_reset(m.1, defs), false, m.3))
            } else {
                Some((m.0, kept_after_reset(m.1, defs), false, m.3.push(m.1)))
            }
        } else {
            Some(m)
        },
        Action::Clear => Some((m.0, kept_after_reset(m.1, defs), false, m.3)),
        Action::ClearAll => Some((m.0, Seq::empty(), false, m.3)),
        Action::Error => None,
        _ => Some(m),
    }
}

/// The machine after `rule` fires with the group spans `spans`.
pub open spec fn fire(t: Template, m: Mach, rule: CompiledRule, spans: Seq<Option<(nat, nat, Seq<char>)>>) -> Option<Mach> {
    let caps = caps_upto(names_view(rule.groups@), spans, spans.len() as int);
    let m1 = (m.0, insert_caps(m.1, caps, t.values@), m.2 || caps.len() > 0, m.3);
    apply_record(m1, rule.record_action, t.values@)
}

/// The state a fired rule leads to (for a rule that does not end the parse).
pub open spec fn next_of(target: Target, cur: int) -> int {
    match target {
        Target::To(i) => i as int,
        _ => cur,
    }
}

/// Dispatches `line` from rule `ri` of the current state on. The result is the
/// machine when the line is done, and whether the parse reached `End`.
/// `budget` bounds the state-changing `Continue` fires on one line: one more
/// than the template has rules means a state and rule repeat, and the line
/// would be dispatched forever.
pub open spec fn dispatch(t: Template, line: Seq<char>, m: Mach, ri: int, budget: nat) -> Result<(Mach, bool), ErrorKind>
    decreases budget, t.states@[m.0].rules@.len() - ri,
{
    if !(0 <= m.0 < t.states@.len()) || ri < 0 || ri >= t.states@[m.0].rules@.len() {
        Ok((m, false))
    } else {
        let rule = t.states@[m.0].rules@[ri];
        match regex_search(rule.regex@, line) {
            None => dispatch(t, line, m, ri + 1, budget),
            Some(spans) => match fire(t, m, rule, spans) {
                None => Err(ErrorKind::ErrorActionTriggered),
                Some(m2) => if rule.target == Target::End {
                    Ok((m2, true))
                } else {
                    let m3 = (next_of(rule.target, m.0), m2.1, m2.2, m2.3);
                    if rule.line_action == Action::Continue {
                        if m3.0 != m.0 {
                            if budget == 0 {
                                Err(ErrorKind::ContinueLoop)
                            } else {
                                dispatch(t, line, m3, 0, (budget - 1) as nat)
                            }
                        } else {
                            dispatch(t, line, m3, ri + 1, budget)
                        }
                    } else {
                        Ok((m3, false))
                    }
                },
            },
        }
    }
}

/// Runs the lines from `i` on.
pub open spec fn run_lines(t: Template, lines: Seq<Seq<char>>, i: int, m: Mach) -> Result<Mach, ErrorKind>
    decreases lines.len() - i,
{
    if i < 0 || i >= lines.len() {
        Ok(m)
    } else {
        match dispatch(t, lines[i], m, 0, t.budget as nat) {
            Err(e) => Err(e),
            Ok((m2, ended)) => if ended {
                Ok(m2)
            } else {
                run_lines(t, lines, i + 1, m2)
            },
        }
    }
}

/// End of input: the `EOF` state's rules run once on an empty line if the
/// template has that state; otherwise one implicit emission is attempted.
pub open spec fn finish(t: Template, m: Mach) -> Result<Mach, ErrorKind> {
    match t.eof {
        Some(e) => match dispatch(t, Seq::empty(), (e as int, m.1, m.2, m.3), 0, t.budget as nat) {
            Err(x) => Err(x),
            Ok((m2, _)) => Ok(m2),
        },
        None => Ok(apply_record(m, Action::Record, t.values@).unwrap()),
    }
}

/// One rule fire as plain values: rule index, state before, state after
/// (`None` for `End`), line action, record action, and the captured
/// (name, text) pairs in group order.
pub type FireView = (int, int, Option<int>, Action, Action, Seq<(Seq<char>, Seq<char>)>);

/// The rule fires while dispatching `line` from rule `ri` on, in order (as
/// `dispatch` makes them).
pub open spec fn dispatch_log(t: Template, line: Seq<char>, m: Mach, ri: int, budget: nat) -> Seq<FireView>
    decreases budget, t.states@[m.0].rules@.len() - ri,
{
    if !(0 <= m.0 < t.states@.len()) || ri < 0 || ri >= t.states@[m.0].rules@.len() {
        Seq::empty()
    } else {
        let rule = t.states@[m.0].rules@[ri];
        match regex_search(rule.regex@, line) {
            None => dispatch_log(t, line, m, ri + 1, budget),
            Some(spans) => {
                let caps = caps_upto(names_view(rule.groups@), spans, spans.len() as int);
                match fire(t, m, rule, spans) {
                    None => Seq::empty(),
                    Some(m2) => if rule.target == Target::End {
                        seq![(ri, m.0, None, rule.line_action, rule.record_action, caps)]
                    } else {
                        let m3 = (next_of(rule.target, m.0), m2.1, m2.2, m2.3);
                        let fv: FireView = (ri, m.0, Some(m3.0), rule.line_action, rule.record_action, caps);
                        if rule.line_action == Action::Continue {
                            if m3.0 != m.0 {
                                if budget == 0 {
                                    seq![fv]
                                } else {
                                    seq![fv] + dispatch_log(t, line, m3, 0, (budget - 1) as nat)
                                }
                            } else {
                                seq![fv] + dispatch_log(t, line, m3, ri + 1, budget)
                            }
                        } else {
                            seq![fv]
                        }
                    },
                }
            },
        }
    }
}

/// `n` empty fire lists.
pub open spec fn no_fires(n: int) -> Seq<Seq<FireView>> {
    Seq::new(n as nat, |i: int| Seq::<FireView>::empty())
}

/// The rule fires of each line from `i` on; lines after the parse ended
/// have none.
pub open spec fn run_log(t: Template, lines: Seq<Seq<char>>, i: int, m: Mach) -> Seq<Seq<FireView>>
    decreases lines.len() - i,
{
    if i < 0 || i >= lines.len() {
        Seq::empty()
    } else {
        match dispatch(t, lines[i], m, 0, t.budget as nat) {
            Err(_) => Seq::empty(),
            Ok((m2, ended)) => if ended {
                seq![dispatch_log(t, lines[i], m, 0, t.budget as nat)] + no_fires(lines.len() - i - 1)
            } else {
                seq![dispatch_log(t, lines[i], m, 0, t.budget as nat)] + run_log(t, lines, i + 1, m2)
            },
        }
    }
}

/// The rule fires of each input line of a parse.
pub open spec fn parse_log(t: Template, input: Seq<char>) -> Seq<Seq<FireView>> {
    run_log(t, lines_of(input), 0, (t.start as int, Seq::empty(), false, Seq::empty()))
}

pub open spec fn action_text(a: Action) -> Seq<char> {
    match a {
        Action::Next => "Next"@,
        Action::Continue => "Continue"@,
        Action::Record => "Record"@,
        Action::Clear => "Clear"@,
        Action::ClearAll => "ClearAll"@,
        Action::Error => "Error"@,
    }
}

/// `lm` describes the fire `f` on line `l`.
pub open spec fn fire_matches(t: Template, f: FireView, lm: LineMatch, l: int) -> bool {
    &&& lm.line_idx == l
    &&& lm.rule_idx == f.0
    &&& lm.state_before@ == t.states@[f.1].name@
    &&& lm.state_after@ == match f.2 {
        None => "End"@,
        Some(s) => t.states@[s].name@,
    }
    &&& lm.line_action@ == action_text(f.3)
    &&& lm.record_action@ == action_text(f.4)
    &&& lm.captures@.len() == f.5.len()
    &&& forall|k: int|
        0 <= k < f.5.len() ==> (#[trigger] lm.captures@[k]).name@ == f.5[k].0 && lm.captures@[k].raw@ == f.5[k].1
}

/// The matches of line `l` describe its fires, one for one and in order.
pub open spec fn line_log_ok(t: Template, ms: Seq<LineMatch>, log: Seq<FireView>, l: int) -> bool {
    ms.len() == log.len() && forall|k: int| 0 <= k < ms.len() ==> fire_matches(t, log[k], #[trigger] ms[k], l)
}

/// The buffers emitted by a parse of `input`, or why it failed.
pub open spec fn parse_spec(t: Template, input: Seq<char>) -> Result<Seq<Seq<Entry>>, ErrorKind> {
    match run_lines(t, lines_of(input), 0, (t.start as int, Seq::empty(), false, Seq::empty())) {
        Err(e) => Err(e),
        Ok(m) => match finish(t, m) {
            Err(e) => Err(e),
            Ok(m2) => Ok(m2.3),
        },
    }
}

/// The completed lines of `s` and the line in progress, scanning left to
/// right: a `\n` ends a line, and a `\r` right before it is dropped.
pub open spec fn line_scan(s: Seq<char>) -> (Seq<Seq<char>>, Seq<char>)
    decreases s.len(),
{
    if s.len() == 0 {
        (Seq::empty(), Seq::empty())
    } else {
        let (ls, cur) = line_scan(s.drop_last());
        if s.last() == '\n' {
            (ls.push(strip_cr(cur)), Seq::empty())
        } else {
            (ls, cur.push(s.last()))
        }
    }
}

pub open spec fn strip_cr(l: Seq<char>) -> Seq<char> {
    if l.len() > 0 && l.last() == '\r' {
        l.drop_last()
    } else {
        l
    }
}

/// The lines of `s`, as `str::lines` yields them.
pub open spec fn lines_of(s: Seq<char>) -> Seq<Seq<char>> {
    let (ls, cur) = line_scan(s);
    if cur.len() > 0 {
        ls.push(cur)
    } else {
        ls
    }
}

pub open spec fn strings_view(v: Seq<String>) -> Seq<Seq<char>> {
    v.map_values(|s: String| s@)
}

/// Splits `input` into lines as `str::lines` does.
pub fn split_lines(input: &str) -> (r: Vec<String>)
    ensures
        strings_view(r@) == lines_of(input@),
{
    let s = chars_of(input);
    let mut out: Vec<String> = Vec::new();
    let mut cur: Vec<char> = Vec::new();
    let mut i: usize = 0;
    while i < s.len()
        invariant
            i <= s@.len(),
            (strings_view(out@), cur@) == line_scan(s@.subrange(0, i as int)),
        decreases s@.len() - i,
    {
        proof {
            assert(s@.subrange(0, i + 1).drop_last() =~= s@.subrange(0, i as int));
        }
        if s[i] == '\n' {
            let n = cur.len();
            if n > 0 && cur[n - 1] == '\r' {
                cur.pop();
            }
            let ghost prev = out@;
            out.push(string_of(cur.as_slice()));
            proof {
                assert(strings_view(out@) =~= strings_view(prev).push(out@.last()@));
            }
            cur = Vec::new();
        } else {
            cur.push(s[i]);
        }
        i = i + 1;
    }
    proof {
        assert(s@.subrange(0, s@.len() as int) =~= s@);
    }
    if cur.len() > 0 {
        let ghost prev = out@;
        out.push(string_of(cur.as_slice()));
        proof {
            assert(strings_view(out@) =~= strings_view(prev).push(out@.last()@));
        }
    }
    out
}

/// The state of one parse in progress.
pub struct Run {
    pub state: usize,
    pub buffer: RecordBuffer,
    pub records: Vec<EmittedRecord>,
    pub emitted: Ghost<Seq<Seq<Entry>>>,
}

impl Run {
    pub open spec fn mach(&self) -> Mach {
        (self.state as int, self.buffer@, self.buffer.is_dirty(), self.emitted@)
    }

    pub open spec fn inv(&self, t: &Template) -> bool {
        &&& self.buffer.wf()
        &&& (self.state as int) < t.states@.len()
        &&& self.records@.len() == self.emitted@.len()
        &&& forall|k: int|
            0 <= k < self.records@.len() ==> record_of(
                (#[trigger] self.records@[k]).record,
                self.emitted@[k],
                t.values@,
            )
    }
}

fn action_name(a: Action) -> (r: String)
    ensures
        r@ == action_text(a),
{
    match a {
        Action::Next => lit("Next"),
        Action::Continue => lit("Continue"),
        Action::Record => lit("Record"),
        Action::Clear => lit("Clear"),
        Action::ClearAll => lit("ClearAll"),
        Action::Error => lit("Error"),
    }
}

fn clone_opt(o: &Option<String>) -> (r: Option<String>) {
    match o {
        Some(s) => Some(s.clone()),
        None => None,
    }
}

impl Template {
    /// Inserts the named captures of a match into the buffer, in group order;
    /// records their spans when `want` is set.
    fn insert_captures(
        &self,
        rule: &CompiledRule,
        spans: &Vec<Option<Span>>,
        line: &String,
        run: &mut Run,
        want: bool,
    ) -> (r: Vec<CaptureSpan>)
        requires
            old(run).inv(self),
            spans@.len() == rule.groups@.len(),
            forall|i: int|
                0 <= i < spans@.len() && (#[trigger] spans@[i]) is Some ==> {
                    let s = spans@[i].unwrap();
                    &&& s.start <= s.end <= vstd::utf8::encode_utf8(line@).len()
                    &&& vstd::utf8::encode_utf8(s.text@) == vstd::utf8::encode_utf8(line@).subrange(
                        s.start as int,
                        s.end as int,
                    )
                },
        ensures
            final(run).inv(self),
            final(run).state == old(run).state,
            final(run).emitted@ == old(run).emitted@,
            final(run).records@ == old(run).records@,
            ({
                let caps = caps_upto(names_view(rule.groups@), spans_view(spans@), spans@.len() as int);
                &&& final(run).buffer@ == insert_caps(old(run).buffer@, caps, self.values@)
                &&& final(run).buffer.is_dirty() == (old(run).buffer.is_dirty() || caps.len() > 0)
            }),
            forall|b: int| 0 <= b < r@.len() ==> span_ok(#[trigger] r@[b], line@),
            want ==> ({
                let caps = caps_upto(names_view(rule.groups@), spans_view(spans@), spans@.len() as int);
                &&& r@.len() == caps.len()
                &&& forall|k: int| 0 <= k < caps.len() ==> (#[trigger] r@[k]).name@ == caps[k].0 && r@[k].raw@ == caps[k].1
            }),
    {
        let ghost g = names_view(rule.groups@);
        let ghost sv = spans_view(spans@);
        let mut out: Vec<CaptureSpan> = Vec::new();
        let mut i: usize = 0;
        while i < spans.len()
            invariant
                i <= spans@.len(),
                spans@.len() == rule.groups@.len(),
                g == names_view(rule.groups@),
                sv == spans_view(spans@),
                run.inv(self),
                run.state == old(run).state,
                run.emitted@ == old(run).emitted@,
                run.records@ == old(run).records@,
                run.buffer@ == insert_caps(old(run).buffer@, caps_upto(g, sv, i as int), self.values@),
                run.buffer.is_dirty() == (old(run).buffer.is_dirty() || caps_upto(g, sv, i as int).len() > 0),
                forall|b: int| 0 <= b < out@.len() ==> span_ok(#[trigger] out@[b], line@),
                want ==> out@.len() == caps_upto(g, sv, i as int).len(),
                want ==> forall|k: int| 0 <= k < out@.len() ==> (#[trigger] out@[k]).name@ == caps_upto(g, sv, i as int)[k].0
                    && out@[k].raw@ == caps_upto(g, sv, i as int)[k].1,
                forall|j: int|
                    0 <= j < spans@.len() && (#[trigger] spans@[j]) is Some ==> {
                        let s = spans@[j].unwrap();
                        &&& s.start <= s.end <= vstd::utf8::encode_utf8(line@).len()
                        &&& vstd::utf8::encode_utf8(s.text@) == vstd::utf8::encode_utf8(line@).subrange(
                            s.start as int,
                            s.end as int,
                        )
                    },
            decreases spans@.len() - i,
        {
            match (&rule.groups[i], &spans[i]) {
                (Some(name), Some(sp)) => {
                    let j = crate::types::find_value(&self.values, name.as_str());
                    let is_list = j < self.values.len() && self.values[j].list;
                    let hint = if j < self.values.len() {
                        self.values[j].type_hint
                    } else {
                        None
                    };
                    proof {
                        assert(g[i as int] == Some(name@));
                        assert(sv[i as int] == Some((sp.start as nat, sp.end as nat, sp.text@)));
                        let c = caps_upto(g, sv, i + 1);
                        assert(c.drop_last() == caps_upto(g, sv, i as int));
                        assert(c.last() == (name@, sp.text@));
                    }
                    run.buffer.insert(name.clone(), sp.text.clone(), is_list);
                    if want {
                        let typed = convert_scalar(sp.text.as_str(), hint);
                        let ls = line.as_str();
                        let valid = sp.start <= sp.end && ls.is_char_boundary(sp.start)
                            && ls.is_char_boundary(sp.end);
                        proof {
                            assert(ls@ == line@);
                            assert(ls.spec_bytes() == encode_utf8(line@));
                        }
                        let c = CaptureSpan {
                            name: name.clone(),
                            start_byte: sp.start,
                            end_byte: sp.end,
                            raw: sp.text.clone(),
                            typed,
                            is_list,
                            valid,
                        };
                        proof {
                            assert(spans@[i as int] is Some);
                            assert(spans@[i as int] == Some(*sp));
                            assert(c.raw@ == sp.text@);
                            assert(span_ok(c, line@));
                        }
                        out.push(c);
                    }
                },
                _ => {
                    proof {
                        assert(caps_upto(g, sv, i + 1) == caps_upto(g, sv, i as int));
                    }
                },
            }
            i = i + 1;
        }
        out
    }

    /// Dispatches one line. Returns whether the parse reached `End`; the rule
    /// fires are added to `matches` and `trace` when `want` is set.
    fn dispatch_line(
        &self,
        line: &String,
        line_idx: usize,
        run: &mut Run,
        want: bool,
        matches: &mut Vec<LineMatch>,
        trace: &mut Vec<TraceEvent>,
    ) -> (r: Result<bool, ScraperError>)
        requires
            self.wf(),
            old(run).inv(self),
            old(matches)@.len() == 0,
        ensures
            matches_ok(final(matches)@, line@),
            match dispatch(*self, line@, old(run).mach(), 0, self.budget as nat) {
                Ok((m2, ended)) => r == Ok::<bool, ScraperError>(ended) && final(run).mach() == m2
                    && final(run).inv(self),
                Err(k) => r is Err && r->Err_0.kind_spec() == Some(k),
            },
            r is Ok && want ==> line_log_ok(
                *self,
                final(matches)@,
                dispatch_log(*self, line@, old(run).mach(), 0, self.budget as nat),
                line_idx as int,
            ),
    {
        let ghost m0 = run.mach();
        let ghost mut lg: Seq<FireView> = Seq::empty();
        let mut ri: usize = 0;
        let mut budget: usize = self.budget;
        loop
            invariant
                self.wf(),
                run.inv(self),
                matches_ok(matches@, line@),
                budget <= self.budget,
                m0 == old(run).mach(),
                want ==> dispatch_log(*self, line@, m0, 0, self.budget as nat) == lg + dispatch_log(
                    *self,
                    line@,
                    run.mach(),
                    ri as int,
                    budget as nat,
                ),
                want ==> line_log_ok(*self, matches@, lg, line_idx as int),
                !want ==> matches@.len() == 0,
                dispatch(*self, line@, m0, 0, self.budget as nat) == dispatch(
                    *self,
                    line@,
                    run.mach(),
                    ri as int,
                    budget as nat,
                ),
            decreases budget, self.states@[run.state as int].rules@.len() - ri,
        {
            let st = run.state;
            if ri >= self.states[st].rules.len() {
                proof {
                    assert(lg + Seq::<FireView>::empty() =~= lg);
                }
                return Ok(false);
            }
            let rule = &self.states[st].rules[ri];
            proof {
                assert(names_view(rule.groups@) == crate::pattern::regex_groups(rule.regex@));
                assert(rule.groups@.len() == names_view(rule.groups@).len());
            }
            match rule.regex.captures(line.as_str()) {
                None => {
                    ri = ri + 1;
                },
                Some(spans) => {
                    let ghost m_before = run.mach();
                    let ghost caps_v = caps_upto(names_view(rule.groups@), spans_view(spans@), spans@.len() as int);
                    let ghost sv = spans_view(spans@);
                    let caps = self.insert_captures(rule, &spans, line, run, want);
                    let mut event = TraceEventType::LineProcessed;
                    match rule.record_action {
                        Action::Record => {
                            let ghost b = run.buffer@;
                            let ghost d = run.buffer.is_dirty();
                            let ghost em = run.emitted@;
                            let out = run.buffer.emit(&self.values);
                            match out {
                                Some(rec) => {
                                    run.records.push(EmittedRecord { line_idx, record: rec });
                                    run.emitted = Ghost(em.push(b));
                                    event = TraceEventType::RecordEmitted;
                                    proof {
                                        assert forall|k: int| 0 <= k < run.records@.len() implies record_of(
                                            (#[trigger] run.records@[k]).record,
                                            run.emitted@[k],
                                            self.values@,
                                        ) by {
                                            if k < run.records@.len() - 1 {
                                                assert(run.records@[k] == old(run).records@[k] || true);
                                            }
                                        }
                                    }
                                },
                                None => {},
                            }
                        },
                        Action::Clear => {
                            run.buffer.clear_non_filldown(&self.values);
                            event = TraceEventType::RecordCleared;
                        },
                        Action::ClearAll => {
                            run.buffer.clear_all();
                            event = TraceEventType::RecordCleared;
                        },
                        Action::Error => {
                            return Err(
                                ScraperError::Parse(
                                    ErrorKind::ErrorActionTriggered,
                                    lit("Error action triggered: parse aborted"),
                                ),
                            );
                        },
                        _ => {},
                    }
                    let prev = st;
                    let ended = rule.target == Target::End;
                    match rule.target {
                        Target::To(i) => {
                            run.state = i;
                        },
                        _ => {},
                    }
                    if want {
                        let after = if ended {
                            lit("End")
                        } else {
                            self.states[run.state].name.clone()
                        };
                        if !ended && run.state != prev && event == TraceEventType::LineProcessed {
                            event = TraceEventType::StateChange;
                        }
                        trace.push(
                            TraceEvent {
                                line_idx,
                                state_before: self.states[prev].name.clone(),
                                state_after: after.clone(),
                                event_type: event,
                            },
                        );
                        let lm = LineMatch {
                            line_idx,
                            state_before: self.states[prev].name.clone(),
                            state_after: after,
                            rule_idx: ri,
                            line_action: action_name(rule.line_action),
                            record_action: action_name(rule.record_action),
                            next_state: clone_opt(&rule.next_state),
                            captures: caps,
                        };
                        let ghost pm = matches@;
                        let ghost fv: FireView = (
                            ri as int,
                            prev as int,
                            if ended { None } else { Some(run.state as int) },
                            rule.line_action,
                            rule.record_action,
                            caps_v,
                        );
                        proof {
                            assert(fire_matches(*self, fv, lm, line_idx as int));
                        }
                        matches.push(lm);
                        proof {
                            assert forall|k: int| 0 <= k < matches@.len() implies fire_matches(*self, lg.push(fv)[k], #[trigger] matches@[k], line_idx as int) by {
                                if k < pm.len() {
                                    assert(matches@[k] == pm[k]);
                                }
                            }
                            lg = lg.push(fv);
                            assert forall|a: int, b: int|
                                0 <= a < matches@.len() && 0 <= b < matches@[a].captures@.len() implies span_ok(
                                #[trigger] matches@[a].captures@[b],
                                line@,
                            ) by {
                                if a < pm.len() {
                                    assert(matches@[a] == pm[a]);
                                }
                            }
                        }
                    }
                    if ended {
                        return Ok(true);
                    }
                    if rule.line_action == Action::Continue {
                        if run.state != prev {
                            if budget == 0 {
                                return Err(
                                    ScraperError::Parse(
                                        ErrorKind::ContinueLoop,
                                        lit("Continue transitions loop on one line"),
                                    ),
                                );
                            }
                            budget = budget - 1;
                            ri = 0;
                        } else {
                            ri = ri + 1;
                        }
                    } else {
                        return Ok(false);
                    }
                },
            }
        }
    }
}

/// The lines, per-line matches and trace of one parse, and its run.
pub struct Outcome {
    pub run: Run,
    pub lines: Vec<String>,
    pub matches_by_line: Vec<Vec<LineMatch>>,
    pub trace: Vec<TraceEvent>,
}

impl Template {
    fn parse_internal(&self, input: &str, want: bool) -> (r: Result<Outcome, ScraperError>)
        requires
            self.wf(),
        ensures
            match parse_spec(*self, input@) {
                Ok(em) => r is Ok && r.unwrap().run.emitted@ == em && r.unwrap().run.inv(self)
                    && strings_view(r.unwrap().lines@) == lines_of(input@)
                    && r.unwrap().matches_by_line@.len() == r.unwrap().lines@.len() && (forall|l: int|
                    0 <= l < r.unwrap().lines@.len() ==> matches_ok(
                    (#[trigger] r.unwrap().matches_by_line@[l])@,
                    r.unwrap().lines@[l]@,
                )) && (want ==> parse_log(*self, input@).len() == r.unwrap().lines@.len() && forall|l: int|
                    0 <= l < r.unwrap().lines@.len() ==> line_log_ok(
                        *self,
                        (#[trigger] r.unwrap().matches_by_line@[l])@,
                        parse_log(*self, input@)[l],
                        l,
                    )),
                Err(k) => r is Err && r->Err_0.kind_spec() == Some(k),
            },
    {
        let lines = split_lines(input);
        let ghost lv = lines_of(input@);
        let mut run = Run {
            state: self.start,
            buffer: RecordBuffer::new(),
            records: Vec::new(),
            emitted: Ghost(Seq::empty()),
        };
        let ghost init = run.mach();
        let ghost mut logs: Seq<Seq<FireView>> = Seq::empty();
        let mut mbl: Vec<Vec<LineMatch>> = Vec::new();
        let mut trace: Vec<TraceEvent> = Vec::new();
        let mut i: usize = 0;
        let mut ended = false;
        while i < lines.len() && !ended
            invariant
                self.wf(),
                run.inv(self),
                i <= lines@.len(),
                strings_view(lines@) == lv,
                lv == lines_of(input@),
                init == (self.start as int, Seq::<Entry>::empty(), false, Seq::<Seq<Entry>>::empty()),
                (if ended {
                    Ok::<Mach, ErrorKind>(run.mach())
                } else {
                    run_lines(*self, lv, i as int, run.mach())
                }) == run_lines(*self, lv, 0, init),
                mbl@.len() == i,
                forall|l: int| 0 <= l < i ==> matches_ok((#[trigger] mbl@[l])@, lines@[l]@),
                want ==> logs.len() == i,
                want ==> forall|l: int| 0 <= l < i ==> line_log_ok(*self, (#[trigger] mbl@[l])@, logs[l], l),
                want && !ended ==> run_log(*self, lv, 0, init) == logs + run_log(*self, lv, i as int, run.mach()),
                want && ended ==> run_log(*self, lv, 0, init) == logs + no_fires(lv.len() - i),
            decreases lines@.len() - i,
        {
            let mut ms: Vec<LineMatch> = Vec::new();
            proof {
                assert(lines@[i as int]@ == lv[i as int]);
            }
            let ghost mb = run.mach();
            match self.dispatch_line(&lines[i], i, &mut run, want, &mut ms, &mut trace) {
                Err(e) => {
                    proof {
                        let k = e.kind_spec().unwrap();
                        assert(dispatch(*self, lv[i as int], mb, 0, self.budget as nat) == Err::<(Mach, bool), ErrorKind>(k));
                        assert(run_lines(*self, lv, i as int, mb) == Err::<Mach, ErrorKind>(k));
                    }
                    return Err(e);
                },
                Ok(e) => {
                    proof {
                        if want {
                            let d = dispatch_log(*self, lv[i as int], mb, 0, self.budget as nat);
                            if e {
                                assert(run_log(*self, lv, i as int, mb) == seq![d] + no_fires(lv.len() - i - 1));
                                assert(logs + (seq![d] + no_fires(lv.len() - i - 1)) =~= logs.push(d) + no_fires(lv.len() - (i + 1)));
                            } else {
                                assert(run_log(*self, lv, i as int, mb) == seq![d] + run_log(*self, lv, i + 1, run.mach()));
                                assert(logs + (seq![d] + run_log(*self, lv, i + 1, run.mach())) =~= logs.push(d) + run_log(*self, lv, i + 1, run.mach()));
                            }
                            logs = logs.push(d);
                        }
                    }
                    ended = e;
                },
            }
            let ghost pm = mbl@;
            mbl.push(ms);
            proof {
                if want {
                    assert forall|l: int| 0 <= l < i + 1 implies line_log_ok(*self, (#[trigger] mbl@[l])@, logs[l], l) by {
                        if l < i {
                            assert(mbl@[l] == pm[l]);
                        }
                    }
                }
            }
            i = i + 1;
        }
        proof {
            if !ended {
                assert(run_lines(*self, lv, i as int, run.mach()) == Ok::<Mach, ErrorKind>(run.mach()));
            }
        }
        proof {
            if want {
                if !ended {
                    assert(run_log(*self, lv, i as int, run.mach()) =~= Seq::<Seq<FireView>>::empty());
                    assert(no_fires(lv.len() - i) =~= Seq::<Seq<FireView>>::empty());
                    assert(logs + Seq::<Seq<FireView>>::empty() =~= logs);
                }
            }
        }
        let ghost full = logs + no_fires(lv.len() - i);
        let ghost i0 = i;
        proof {
            if want {
                assert forall|l: int| 0 <= l < i implies line_log_ok(*self, (#[trigger] mbl@[l])@, full[l], l) by {
                    assert(full[l] == logs[l]);
                }
                assert(full =~= run_log(*self, lv, 0, init));
            }
        }
        while i < lines.len()
            invariant
                i <= lines@.len(),
                lv.len() == lines@.len(),
                mbl@.len() == i,
                forall|l: int| 0 <= l < i ==> matches_ok((#[trigger] mbl@[l])@, lines@[l]@),
                want ==> full.len() == lv.len(),
                want ==> forall|l: int| 0 <= l < i ==> line_log_ok(*self, (#[trigger] mbl@[l])@, full[l], l),
                want ==> full == run_log(*self, lv, 0, init),
                want ==> logs.len() == i0,
                full == logs + no_fires(lv.len() - i0),
                i0 <= i,
            decreases lines@.len() - i,
        {
            let ghost pm = mbl@;
            mbl.push(Vec::new());
            proof {
                if want {
                    assert(full[i as int] == no_fires(lv.len() - i0)[i - i0]);
                    assert forall|l: int| 0 <= l < i + 1 implies line_log_ok(*self, (#[trigger] mbl@[l])@, full[l], l) by {
                        if l < i {
                            assert(mbl@[l] == pm[l]);
                        }
                    }
                }
            }
            i = i + 1;
        }
        match self.eof {
            Some(e) => {
                run.state = e;
                let mut ms: Vec<LineMatch> = Vec::new();
                let empty = String::new();
                match self.dispatch_line(&empty, lines.len(), &mut run, want, &mut ms, &mut trace) {
                    Err(x) => {
                        return Err(x);
                    },
                    Ok(_) => {},
                }
            },
            None => {
                let ghost b = run.buffer@;
                let ghost em = run.emitted@;
                match run.buffer.emit(&self.values) {
                    Some(rec) => {
                        run.records.push(EmittedRecord { line_idx: lines.len(), record: rec });
                        run.emitted = Ghost(em.push(b));
                    },
                    None => {},
                }
            },
        }
        Ok(Outcome { run, lines, matches_by_line: mbl, trace })
    }

    /// Parses `input`: one record per emission, in emission order.
    pub fn parse(&self, input: &str) -> (r: Result<Vec<Record>, ScraperError>)
        requires
            self.wf(),
        ensures
            match parse_spec(*self, input@) {
                Ok(em) => r is Ok && r.unwrap()@.len() == em.len() && forall|k: int|
                    0 <= k < em.len() ==> record_of(#[trigger] r.unwrap()@[k], em[k], self.values@),
                Err(k) => r is Err && r->Err_0.kind_spec() == Some(k),
            },
    {
        let o = self.parse_internal(input, false)?;
        let ghost em = o.run.emitted@;
        let mut recs = o.run.records;
        let mut out: Vec<Record> = Vec::new();
        let ghost n = recs@.len();
        while recs.len() > 0
            invariant
                out@.len() + recs@.len() == n,
                n == em.len(),
                forall|k: int| 0 <= k < out@.len() ==> record_of(#[trigger] out@[k], em[k], self.values@),
                forall|k: int|
                    0 <= k < recs@.len() ==> record_of(
                        (#[trigger] recs@[k]).record,
                        em[k + out@.len()],
                        self.values@,
                    ),
            decreases recs@.len(),
        {
            let ghost before = recs@;
            let e = recs.remove(0);
            proof {
                assert forall|k: int| 0 <= k < recs@.len() implies record_of(
                    (#[trigger] recs@[k]).record,
                    em[k + out@.len() + 1],
                    self.values@,
                ) by {
                    assert(recs@[k] == before[k + 1]);
                }
            }
            out.push(e.record);
        }
        Ok(out)
    }

    /// Parses `input`, reporting every rule fire, capture span and emission.
    /// Each line's matches are its rule fires, in order (see `parse_log`);
    /// the records are those `parse` returns.
    pub fn debug_parse(&self, input: &str) -> (r: Result<DebugReport, ScraperError>)
        requires
            self.wf(),
        ensures
            match parse_spec(*self, input@) {
                Ok(em) => r is Ok && {
                    let rep = r.unwrap();
                    &&& strings_view(rep.lines@) == lines_of(input@)
                    &&& rep.matches_by_line@.len() == rep.lines@.len()
                    &&& forall|l: int|
                        0 <= l < rep.lines@.len() ==> matches_ok(
                            (#[trigger] rep.matches_by_line@[l])@,
                            rep.lines@[l]@,
                        )
                    &&& parse_log(*self, input@).len() == rep.lines@.len()
                    &&& forall|l: int|
                        0 <= l < rep.lines@.len() ==> line_log_ok(
                            *self,
                            (#[trigger] rep.matches_by_line@[l])@,
                            parse_log(*self, input@)[l],
                            l,
                        )
                    &&& rep.records@.len() == em.len()
                    &&& forall|k: int|
                        0 <= k < em.len() ==> record_of(
                            (#[trigger] rep.records@[k]).record,
                            em[k],
                            self.values@,
                        )
                },
                Err(k) => r is Err && r->Err_0.kind_spec() == Some(k),
            },
    {
        let o = self.parse_internal(input, true)?;
        let ghost og = o;
        let rep = DebugReport {
            lines: o.lines,
            matches_by_line: o.matches_by_line,
            records: o.run.records,
            trace: o.trace,
        };
        proof {
            assert(rep.lines == og.lines);
            assert(parse_spec(*self, input@) is Ok);
            assert(parse_log(*self, input@).len() == og.lines@.len());
            assert(rep.lines@.len() == og.lines@.len());
            assert(rep.matches_by_line == og.matches_by_line);
            assert forall|l: int| 0 <= l < rep.lines@.len() implies line_log_ok(
                *self,
                (#[trigger] rep.matches_by_line@[l])@,
                parse_log(*self, input@)[l],
                l,
            ) by {
                assert(rep.matches_by_line@[l] == og.matches_by_line@[l]);
            }
        }
        Ok(rep)
    }
}

} // verus!
