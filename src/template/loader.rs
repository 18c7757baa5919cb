//! The legacy line-oriented template dialect.
use vstd::prelude::*;
use crate::text::{chars_eq, chars_of, is_whitespace, lit, slice_vec, string_of, trim_bounds};
use crate::types::{Action, ErrorKind, Rule, ScraperError, State, TemplateIR, TemplateWarning, ValueDef};

verus! {

/// Loads legacy templates.
pub struct TextFsmLoader;

/// The line grammar of the legacy dialect.
pub struct TextFsmParser;

/// What one line of a legacy template is.
#[derive(Debug, Clone, Copy, PartialEq, Eq, Structural)]
pub enum LineKind {
    Blank,
    Comment,
    ValueDef,
    RuleLine,
    StateHeader,
}

pub open spec fn is_ws_char(c: char) -> bool {
    crate::text::is_ws(c)
}

/// The kind of a line: blank; `#` comment (after optional indentation); a
/// `Value` definition; an indented rule; otherwise a state header.
pub open spec fn line_kind(l: Seq<char>) -> LineKind {
    let t = crate::text::trim_spec(l);
    if t.len() == 0 {
        LineKind::Blank
    } else if t[0] == '#' {
        LineKind::Comment
    } else if is_ws_char(l[0]) {
        LineKind::RuleLine
    } else if l.len() > 5 && l[0] == 'V' && l[1] == 'a' && l[2] == 'l' && l[3] == 'u' && l[4] == 'e'
        && is_ws_char(l[5]) {
        LineKind::ValueDef
    } else {
        LineKind::StateHeader
    }
}

/// Whether `f` is among the words of `ws` before the last.
pub open spec fn has_flag(ws: Seq<Seq<char>>, f: Seq<char>) -> bool {
    exists|k: int| 0 <= k < ws.len() - 1 && ws[k] == f
}

/// A `Value` line: the name (the last word before `(`), the regex (from `(`
/// on, trimmed) and the flags among the words before the name.
pub open spec fn value_spec(l: Seq<char>) -> Option<(Seq<char>, Seq<char>, bool, bool, bool)> {
    let body = if l.len() >= 5 {
        l.subrange(5, l.len() as int)
    } else {
        Seq::empty()
    };
    let p = first_index(body, '(');
    let ws = words_of(body.subrange(0, p), true);
    if p < 0 || ws.len() == 0 {
        None
    } else {
        Some(
            (
                ws.last(),
                crate::text::trim_spec(body.subrange(p, body.len() as int)),
                has_flag(ws, "Filldown"@),
                has_flag(ws, "Required"@),
                has_flag(ws, "List"@),
            ),
        )
    }
}

/// The action text after `->`, as words: `None` when it has too many words,
/// `Some(None)` when the rule is skipped over an unknown keyword, else the
/// line action, record action and next state.
pub open spec fn action_spec(ws: Seq<Seq<char>>) -> Option<Option<(Action, Action, Option<Seq<char>>)>> {
    let next2: Option<Seq<char>> = if ws.len() == 2 {
        Some(ws[1])
    } else {
        None
    };
    if ws.len() > 2 {
        None
    } else if ws.len() == 0 {
        Some(Some((Action::Next, Action::Next, None)))
    } else {
        let w = ws[0];
        let d = first_index(w, '.');
        if d >= 0 {
            let l = w.subrange(0, d);
            let r = w.subrange(d + 1, w.len() as int);
            if line_keyword(l) is Some && record_keyword(r) is Some {
                Some(Some((line_keyword(l).unwrap(), record_keyword(r).unwrap(), next2)))
            } else {
                Some(None)
            }
        } else if line_keyword(w) is Some {
            Some(Some((line_keyword(w).unwrap(), Action::Next, next2)))
        } else if record_keyword(w) is Some {
            Some(Some((Action::Next, record_keyword(w).unwrap(), next2)))
        } else {
            Some(Some((Action::Next, Action::Next, if ws.len() == 2 {
                Some(ws[1])
            } else {
                Some(w)
            })))
        }
    }
}

pub open spec fn opt_view(o: Option<String>) -> Option<Seq<char>> {
    match o {
        Some(s) => Some(s@),
        None => None,
    }
}

/// Whether `->` preceded by whitespace starts at `s`.
pub open spec fn is_arrow(t: Seq<char>, s: int) -> bool {
    0 < s && s + 2 <= t.len() && t[s] == '-' && t[s + 1] == '>' && crate::text::is_ws(t[s - 1])
}

/// The last arrow that ends at or before `k`, or -1.
pub open spec fn last_arrow(t: Seq<char>, k: int) -> int
    decreases k,
{
    if k < 2 {
        -1
    } else if is_arrow(t, k - 2) {
        k - 2
    } else {
        last_arrow(t, k - 1)
    }
}

/// A rule line: the trimmed text split at its last arrow into a regex
/// (trimmed) and action words; `None` for a syntax error, `Some(None)` for
/// a skipped rule.
pub open spec fn rule_spec(l: Seq<char>) -> Option<Option<(Seq<char>, Action, Action, Option<Seq<char>>)>> {
    let t = crate::text::trim_spec(l);
    let s = last_arrow(t, t.len() as int);
    let re = if s >= 0 {
        crate::text::trim_spec(t.subrange(0, s))
    } else {
        crate::text::trim_spec(t)
    };
    let ws = if s >= 0 {
        words_of(t.subrange(s + 2, t.len() as int), false)
    } else {
        Seq::empty()
    };
    match action_spec(ws) {
        None => None,
        Some(None) => Some(None),
        Some(Some((la, ra, n))) => Some(Some((re, la, ra, n))),
    }
}

/// A warning as text: its kind and message.
pub type WarnView = (Seq<char>, Seq<char>);

pub open spec fn warns_view(v: Seq<TemplateWarning>) -> Seq<WarnView> {
    v.map_values(|w: TemplateWarning| (w.kind@, w.message@))
}

pub open spec fn is_known_flag(w: Seq<char>) -> bool {
    w == "Filldown"@ || w == "Required"@ || w == "List"@
}

/// The warnings for the unknown flags among the first `k` words.
pub open spec fn flag_warnings(ws: Seq<Seq<char>>, k: int, name: Seq<char>) -> Seq<WarnView>
    decreases k,
{
    if k <= 0 {
        Seq::empty()
    } else {
        let prev = flag_warnings(ws, k - 1, name);
        if is_known_flag(ws[k - 1]) {
            prev
        } else {
            prev.push(
                (
                    "unknown_value_flag"@,
                    "Unknown Value flag '"@ + ws[k - 1] + "' on field '"@ + name + "' - ignoring"@,
                ),
            )
        }
    }
}

/// The words before the regex of a `Value` line.
pub open spec fn value_words(l: Seq<char>) -> Seq<Seq<char>> {
    let body = if l.len() >= 5 {
        l.subrange(5, l.len() as int)
    } else {
        Seq::empty()
    };
    words_of(body.subrange(0, first_index(body, '(')), true)
}

/// The warnings a `Value` line gives: one per unknown flag, in order (the
/// field is still defined).
pub open spec fn value_warnings(l: Seq<char>) -> Seq<WarnView> {
    let ws = value_words(l);
    if value_spec(l) is Some {
        flag_warnings(ws, ws.len() - 1, ws.last())
    } else {
        Seq::empty()
    }
}

/// The warning of an action text whose rule is skipped, if any.
pub open spec fn action_warnings(ws: Seq<Seq<char>>) -> Seq<WarnView> {
    if ws.len() > 2 || ws.len() == 0 {
        Seq::empty()
    } else {
        let w = ws[0];
        let d = first_index(w, '.');
        let l = w.subrange(0, d);
        let r = w.subrange(d + 1, w.len() as int);
        if d >= 0 && line_keyword(l) is None {
            seq![("unknown_line_action"@, "Unknown line action '"@ + l + "' - skipping rule"@)]
        } else if d >= 0 && record_keyword(r) is None {
            seq![("unknown_record_action"@, "Unknown record action '"@ + r + "' - skipping rule"@)]
        } else {
            Seq::empty()
        }
    }
}

/// The action words of a rule line.
pub open spec fn rule_words(l: Seq<char>) -> Seq<Seq<char>> {
    let t = crate::text::trim_spec(l);
    let s = last_arrow(t, t.len() as int);
    if s >= 0 {
        words_of(t.subrange(s + 2, t.len() as int), false)
    } else {
        Seq::empty()
    }
}

/// The warnings the lines of a legacy template give, in order.
pub open spec fn load_warnings(ls: Seq<Seq<char>>) -> Seq<WarnView>
    decreases ls.len(),
{
    if ls.len() == 0 {
        Seq::empty()
    } else {
        let prev = load_warnings(ls.drop_last());
        let l = ls.last();
        match load_scan(ls.drop_last()) {
            None => prev,
            Some((vs, ss, cur)) => match line_kind(l) {
                LineKind::ValueDef => if cur is None {
                    prev + value_warnings(l)
                } else {
                    prev
                },
                LineKind::RuleLine => if cur is Some {
                    prev + action_warnings(rule_words(l))
                } else {
                    prev
                },
                _ => prev,
            },
        }
    }
}

/// The record action a keyword names.
pub open spec fn record_keyword(t: Seq<char>) -> Option<Action> {
    if t == "Record"@ {
        Some(Action::Record)
    } else if t == "Clear"@ {
        Some(Action::Clear)
    } else if t == "Clearall"@ {
        Some(Action::ClearAll)
    } else if t == "Error"@ {
        Some(Action::Error)
    } else if t == "NoRecord"@ {
        Some(Action::Next)
    } else {
        None
    }
}

/// The line action a keyword names.
pub open spec fn line_keyword(t: Seq<char>) -> Option<Action> {
    if t == "Next"@ {
        Some(Action::Next)
    } else if t == "Continue"@ {
        Some(Action::Continue)
    } else {
        None
    }
}

fn keyword_eq(v: &Vec<char>, k: &str) -> (r: bool)
    ensures
        r == (v@ == k@),
{
    let kc = chars_of(k);
    chars_eq(v.as_slice(), kc.as_slice())
}

fn record_keyword_exec(t: &Vec<char>) -> (r: Option<Action>)
    ensures
        r == record_keyword(t@),
{
    if keyword_eq(t, "Record") {
        Some(Action::Record)
    } else if keyword_eq(t, "Clear") {
        Some(Action::Clear)
    } else if keyword_eq(t, "Clearall") {
        Some(Action::ClearAll)
    } else if keyword_eq(t, "Error") {
        Some(Action::Error)
    } else if keyword_eq(t, "NoRecord") {
        Some(Action::Next)
    } else {
        None
    }
}

fn line_keyword_exec(t: &Vec<char>) -> (r: Option<Action>)
    ensures
        r == line_keyword(t@),
{
    if keyword_eq(t, "Next") {
        Some(Action::Next)
    } else if keyword_eq(t, "Continue") {
        Some(Action::Continue)
    } else {
        None
    }
}

/// The first index of `c` in `s`, or -1.
pub open spec fn first_index(s: Seq<char>, c: char) -> int
    decreases s.len(),
{
    if s.len() == 0 {
        -1
    } else if s[0] == c {
        0
    } else if first_index(s.subrange(1, s.len() as int), c) < 0 {
        -1
    } else {
        first_index(s.subrange(1, s.len() as int), c) + 1
    }
}

proof fn lemma_first_index(s: Seq<char>, c: char, i: int)
    requires
        0 <= i <= s.len(),
        forall|j: int| 0 <= j < i ==> s[j] != c,
        i < s.len() ==> s[i] == c,
    ensures
        first_index(s, c) == if i < s.len() { i } else { -1 },
    decreases s.len(),
{
    if s.len() > 0 && i > 0 {
        let t = s.subrange(1, s.len() as int);
        assert forall|j: int| 0 <= j < i - 1 implies t[j] != c by {
            assert(t[j] == s[j + 1]);
        }
        if i < s.len() {
            assert(t[i - 1] == s[i]);
        }
        lemma_first_index(t, c, i - 1);
    }
}

/// The first index of `c` in `s`, if any.
pub(crate) fn index_of(s: &Vec<char>, c: char) -> (r: Option<usize>)
    ensures
        r matches Some(i) ==> i < s@.len() && s@[i as int] == c && forall|j: int| 0 <= j < i ==> s@[j] != c,
        r is None ==> forall|j: int| 0 <= j < s@.len() ==> s@[j] != c,
        match r {
            Some(i) => first_index(s@, c) == i,
            None => first_index(s@, c) == -1,
        },
{
    let mut i: usize = 0;
    while i < s.len()
        invariant
            i <= s@.len(),
            forall|j: int| 0 <= j < i ==> s@[j] != c,
        decreases s@.len() - i,
    {
        if s[i] == c {
            proof {
                lemma_first_index(s@, c, i as int);
            }
            return Some(i);
        }
        i = i + 1;
    }
    proof {
        lemma_first_index(s@, c, i as int);
    }
    None
}

pub open spec fn is_sep(c: char, commas: bool) -> bool {
    crate::text::is_ws(c) || (commas && c == ',')
}

/// The finished words of `s` and the word in progress, scanning left to right.
pub open spec fn word_scan(s: Seq<char>, commas: bool) -> (Seq<Seq<char>>, Seq<char>)
    decreases s.len(),
{
    if s.len() == 0 {
        (Seq::empty(), Seq::empty())
    } else {
        let (ws, cur) = word_scan(s.drop_last(), commas);
        if is_sep(s.last(), commas) {
            if cur.len() > 0 {
                (ws.push(cur), Seq::empty())
            } else {
                (ws, Seq::empty())
            }
        } else {
            (ws, cur.push(s.last()))
        }
    }
}

/// The maximal runs of non-separator characters of `s`: separators are
/// whitespace, and `,` when `commas` is set.
pub open spec fn words_of(s: Seq<char>, commas: bool) -> Seq<Seq<char>> {
    let (ws, cur) = word_scan(s, commas);
    if cur.len() > 0 {
        ws.push(cur)
    } else {
        ws
    }
}

pub open spec fn vecs_view(v: Seq<Vec<char>>) -> Seq<Seq<char>> {
    v.map_values(|x: Vec<char>| x@)
}

/// Splits `s` into words (see `words_of`).
pub fn split_words(s: &Vec<char>, commas: bool) -> (r: Vec<Vec<char>>)
    ensures
        vecs_view(r@) == words_of(s@, commas),
{
    let mut out: Vec<Vec<char>> = Vec::new();
    let mut cur: Vec<char> = Vec::new();
    let mut i: usize = 0;
    while i < s.len()
        invariant
            i <= s@.len(),
            (vecs_view(out@), cur@) == word_scan(s@.subrange(0, i as int), commas),
        decreases s@.len() - i,
    {
        proof {
            assert(s@.subrange(0, i + 1).drop_last() =~= s@.subrange(0, i as int));
        }
        let c = s[i];
        if is_whitespace(c) || (commas && c == ',') {
            if cur.len() > 0 {
                let mut w: Vec<char> = Vec::new();
                std::mem::swap(&mut w, &mut cur);
                let ghost prev = out@;
                out.push(w);
                proof {
                    assert(vecs_view(out@) =~= vecs_view(prev).push(w@));
                }
            } else {
                cur = Vec::new();
            }
            proof {
                assert(cur@ =~= Seq::<char>::empty());
            }
        } else {
            cur.push(c);
        }
        i = i + 1;
    }
    proof {
        assert(s@.subrange(0, s@.len() as int) =~= s@);
    }
    if cur.len() > 0 {
        let ghost prev = out@;
        let ghost cv = cur@;
        out.push(cur);
        proof {
            assert(vecs_view(out@) =~= vecs_view(prev).push(cv));
        }
    }
    out
}

fn syntax_error(msg: String) -> (r: ScraperError)
    ensures
        r.kind_spec() == Some(ErrorKind::TemplateSyntax),
{
    ScraperError::Parse(ErrorKind::TemplateSyntax, msg)
}

fn warning(kind: &str, parts: &[&str]) -> (r: TemplateWarning)
    ensures
        r.kind@ == kind@,
        r.message@ == crate::text::cat_spec(parts@),
{
    TemplateWarning { kind: lit(kind), message: crate::text::cat(parts) }
}

impl TextFsmParser {
    /// Classifies a line.
    pub fn line_kind(l: &Vec<char>) -> (r: LineKind)
        ensures
            r == line_kind(l@),
    {
        let (a, b) = trim_bounds(l.as_slice());
        if a == b {
            return LineKind::Blank;
        }
        proof {
            assert(crate::text::trim_spec(l@)[0] == l@[a as int]);
        }
        if l[a] == '#' {
            return LineKind::Comment;
        }
        if is_whitespace(l[0]) {
            return LineKind::RuleLine;
        }
        if l.len() > 5 && l[0] == 'V' && l[1] == 'a' && l[2] == 'l' && l[3] == 'u' && l[4] == 'e'
            && is_whitespace(l[5]) {
            return LineKind::ValueDef;
        }
        LineKind::StateHeader
    }

    /// Parses `Value [flags] NAME (REGEX)`; unknown flags are reported and ignored.
    pub fn value_def(l: &Vec<char>, warnings: &mut Vec<TemplateWarning>) -> (r: Result<ValueDef, ScraperError>)
        ensures
            r is Err ==> r->Err_0.kind_spec() == Some(ErrorKind::TemplateSyntax),
            r is Err <==> value_spec(l@) is None,
            r is Ok ==> value_spec(l@) == Some(
                (r.unwrap().name@, r.unwrap().regex@, r.unwrap().filldown, r.unwrap().required, r.unwrap().list),
            ) && r.unwrap().type_hint is None,
            warns_view(final(warnings)@) == warns_view(old(warnings)@) + value_warnings(l@),
    {
        let body = if l.len() >= 5 {
            slice_vec(l.as_slice(), 5, l.len())
        } else {
            Vec::new()
        };
        proof {
            if l@.len() < 5 {
                assert(body@ =~= Seq::<char>::empty());
            }
        }
        let p = match index_of(&body, '(') {
            Some(p) => p,
            None => {
                proof {
                    assert(warns_view(warnings@) =~= warns_view(old(warnings)@) + value_warnings(l@));
                }
                return Err(syntax_error(crate::text::cat(&["Value definition without a regex: ", string_of(l.as_slice()).as_str()])));
            },
        };
        let head = slice_vec(body.as_slice(), 0, p);
        let re = slice_vec(body.as_slice(), p, body.len());
        let (ra, rb) = trim_bounds(re.as_slice());
        let regex = slice_vec(re.as_slice(), ra, rb);
        let words = split_words(&head, true);
        if words.len() == 0 {
            proof {
                assert(warns_view(warnings@) =~= warns_view(old(warnings)@) + value_warnings(l@));
            }
            return Err(syntax_error(crate::text::cat(&["Value definition without a name: ", string_of(l.as_slice()).as_str()])));
        }
        let ghost ws = vecs_view(words@);
        proof {
            reveal_strlit("Filldown");
            reveal_strlit("Required");
            reveal_strlit("List");
            assert("Filldown"@ != "Required"@ && "Filldown"@ != "List"@ && "Required"@ != "List"@) by {
                assert("Filldown"@[0] != "Required"@[0]);
            }
        }
        let name = string_of(words[words.len() - 1].as_slice());
        let mut filldown = false;
        let mut required = false;
        let mut list = false;
        let mut i: usize = 0;
        while i < words.len() - 1
            invariant
                words@.len() > 0,
                ws == vecs_view(words@),
                "Filldown"@ != "Required"@ && "Filldown"@ != "List"@ && "Required"@ != "List"@,
                i <= words@.len() - 1,
                filldown == exists|k: int| 0 <= k < i && ws[k] == "Filldown"@,
                required == exists|k: int| 0 <= k < i && ws[k] == "Required"@,
                list == exists|k: int| 0 <= k < i && ws[k] == "List"@,
                name@ == ws.last(),
                warns_view(warnings@) == warns_view(old(warnings)@) + flag_warnings(ws, i as int, ws.last()),
            decreases words@.len() - 1 - i,
        {
            let w = &words[i];
            proof {
                assert(ws[i as int] == w@);
            }
            if keyword_eq(w, "Filldown") {
                filldown = true;
            } else if keyword_eq(w, "Required") {
                required = true;
            } else if keyword_eq(w, "List") {
                list = true;
            } else {
                let f = string_of(w.as_slice());
                let wn = warning(
                    "unknown_value_flag",
                    &["Unknown Value flag '", f.as_str(), "' on field '", name.as_str(), "' - ignoring"],
                );
                proof {
                    reveal_with_fuel(crate::text::cat_spec, 6);
                    assert(wn.message@ =~= "Unknown Value flag '"@ + ws[i as int] + "' on field '"@ + ws.last() + "' - ignoring"@);
                }
                let ghost pw = warnings@;
                warnings.push(wn);
                proof {
                    assert(warns_view(warnings@) =~= warns_view(pw).push((wn.kind@, wn.message@)));
                }
            }
            i = i + 1;
        }
        proof {
            assert(value_words(l@) == ws);
        }
        Ok(ValueDef { name, regex: string_of(regex.as_slice()), filldown, required, list, type_hint: None })
    }

    /// Parses the action text after `->`: `[LineAction.]RecordAction [NEXT]`,
    /// a lone line action, record action or state name, and an optional next
    /// state. `Ok(None)` means the rule is skipped (a warning says why).
    pub fn action(a: &Vec<char>, warnings: &mut Vec<TemplateWarning>) -> (r: Result<Option<(Action, Action, Option<String>)>, ScraperError>)
        ensures
            match action_spec(words_of(a@, false)) {
                None => r is Err && r->Err_0.kind_spec() == Some(ErrorKind::TemplateSyntax),
                Some(None) => r == Ok::<Option<(Action, Action, Option<String>)>, ScraperError>(None),
                Some(Some((x, y, n))) => r is Ok && r.unwrap() is Some && r.unwrap().unwrap().0 == x
                    && r.unwrap().unwrap().1 == y && opt_view(r.unwrap().unwrap().2) == n,
            },
            warns_view(final(warnings)@) == warns_view(old(warnings)@) + action_warnings(words_of(a@, false)),
    {
        let ghost w0 = warns_view(warnings@);
        let words = split_words(a, false);
        let ghost ws = vecs_view(words@);
        proof {
            if words@.len() > 0 {
                assert(ws[0] == words@[0]@);
            }
            if words@.len() == 2 {
                assert(ws[1] == words@[1]@);
            }
        }
        if words.len() > 2 {
            return Err(syntax_error(crate::text::cat(&["Too many words in rule action: ", string_of(a.as_slice()).as_str()])));
        }
        let mut la = Action::Next;
        let mut ra = Action::Next;
        let mut next: Option<String> = None;
        if words.len() >= 1 {
            let w = &words[0];
            match index_of(w, '.') {
                Some(d) => {
                    let wl = w.len();
                    let l = slice_vec(w.as_slice(), 0, d);
                    let r = slice_vec(w.as_slice(), d + 1, w.len());
                    match line_keyword_exec(&l) {
                        Some(x) => {
                            la = x;
                        },
                        None => {
                            let s = string_of(l.as_slice());
                            let wn = warning("unknown_line_action", &["Unknown line action '", s.as_str(), "' - skipping rule"]);
                            let ghost pw = warnings@;
                            warnings.push(wn);
                            proof {
                                reveal_with_fuel(crate::text::cat_spec, 4);
                                assert(warns_view(warnings@) =~= warns_view(pw).push((wn.kind@, wn.message@)));
                                assert(ws[0] == w@);
                                assert(warns_view(warnings@) =~= w0 + action_warnings(ws));
                            }
                            return Ok(None);
                        },
                    }
                    match record_keyword_exec(&r) {
                        Some(x) => {
                            ra = x;
                        },
                        None => {
                            let s = string_of(r.as_slice());
                            let wn = warning("unknown_record_action", &["Unknown record action '", s.as_str(), "' - skipping rule"]);
                            let ghost pw = warnings@;
                            warnings.push(wn);
                            proof {
                                reveal_with_fuel(crate::text::cat_spec, 4);
                                assert(warns_view(warnings@) =~= warns_view(pw).push((wn.kind@, wn.message@)));
                                assert(ws[0] == w@);
                                assert(warns_view(warnings@) =~= w0 + action_warnings(ws));
                            }
                            return Ok(None);
                        },
                    }
                },
                None => {
                    match line_keyword_exec(w) {
                        Some(x) => {
                            la = x;
                        },
                        None => match record_keyword_exec(w) {
                            Some(x) => {
                                ra = x;
                            },
                            None => {
                                next = Some(string_of(w.as_slice()));
                            },
                        },
                    }
                },
            }
        }
        if words.len() == 2 {
            next = Some(string_of(words[1].as_slice()));
        }
        Ok(Some((la, ra, next)))
    }

    /// Parses an indented rule line `REGEX [-> ACTION]`.
    pub fn rule(l: &Vec<char>, warnings: &mut Vec<TemplateWarning>) -> (r: Result<Option<Rule>, ScraperError>)
        ensures
            match rule_spec(l@) {
                None => r is Err && r->Err_0.kind_spec() == Some(ErrorKind::TemplateSyntax),
                Some(None) => r == Ok::<Option<Rule>, ScraperError>(None),
                Some(Some((re, la, ra, n))) => r is Ok && r.unwrap() is Some && r.unwrap().unwrap().regex@ == re
                    && r.unwrap().unwrap().line_action == la && r.unwrap().unwrap().record_action == ra
                    && opt_view(r.unwrap().unwrap().next_state) == n,
            },
            warns_view(final(warnings)@) == warns_view(old(warnings)@) + action_warnings(rule_words(l@)),
    {
        let (a, b) = trim_bounds(l.as_slice());
        let t = slice_vec(l.as_slice(), a, b);
        let n = t.len();
        // The last `->` that follows whitespace separates regex and action.
        let mut k: usize = n;
        let mut found: Option<usize> = None;
        while k >= 2 && found.is_none()
            invariant
                n == t@.len(),
                k <= n,
                found is None ==> last_arrow(t@, n as int) == last_arrow(t@, k as int),
                found matches Some(x) ==> x as int == last_arrow(t@, n as int) && x + 2 <= n,
            decreases k + (if found is None { 1int } else { 0int }),
        {
            let s = k - 2;
            if t[s] == '-' && t[s + 1] == '>' && s > 0 && is_whitespace(t[s - 1]) {
                found = Some(s);
            } else {
                k = k - 1;
            }
        }
        proof {
            if found is None {
                assert(last_arrow(t@, k as int) == -1);
            }
        }
        let (regex_part, action_part) = match found {
            Some(s) => {
                let r = slice_vec(t.as_slice(), 0, s);
                let a2 = slice_vec(t.as_slice(), s + 2, n);
                (r, a2)
            },
            None => (t, Vec::new()),
        };
        proof {
            assert(words_of(Seq::<char>::empty(), false) =~= Seq::<Seq<char>>::empty());
        }
        let (ra, rb) = trim_bounds(regex_part.as_slice());
        let regex = slice_vec(regex_part.as_slice(), ra, rb);
        let act = Self::action(&action_part, warnings)?;
        match act {
            None => Ok(None),
            Some((la, rec, next)) => Ok(Some(Rule { regex: string_of(regex.as_slice()), line_action: la, record_action: rec, next_state: next })),
        }
    }
}

/// A field as text and flags: name, regex, filldown, required, list.
pub type FieldView = (Seq<char>, Seq<char>, bool, bool, bool);

/// A rule as text and actions.
pub type RuleView = (Seq<char>, Action, Action, Option<Seq<char>>);

/// A state: its name and rules.
pub type StateView = (Seq<char>, Seq<RuleView>);

pub open spec fn field_view(v: ValueDef) -> FieldView {
    (v.name@, v.regex@, v.filldown, v.required, v.list)
}

pub open spec fn rule_view(r: Rule) -> RuleView {
    (r.regex@, r.line_action, r.record_action, opt_view(r.next_state))
}

pub open spec fn state_view(st: State) -> StateView {
    (st.name@, st.rules@.map_values(|r: Rule| rule_view(r)))
}

/// The first index of an item named `name`, or -1.
pub open spec fn index_by_name<T>(v: Seq<(Seq<char>, T)>, name: Seq<char>) -> int
    decreases v.len(),
{
    if v.len() == 0 {
        -1
    } else if index_by_name(v.drop_last(), name) >= 0 {
        index_by_name(v.drop_last(), name)
    } else if v.last().0 == name {
        v.len() - 1
    } else {
        -1
    }
}

/// `vs` with `f` put in: replacing the first field of the same name, else last.
pub open spec fn put_field(vs: Seq<FieldView>, f: FieldView) -> Seq<FieldView> {
    let i = index_by_name(vs.map_values(|x: FieldView| (x.0, x)), f.0);
    if i >= 0 {
        vs.update(i, f)
    } else {
        vs.push(f)
    }
}

/// `ss` with `st` put in: replacing the first state of the same name, else last.
pub open spec fn put_state_view(ss: Seq<StateView>, st: Option<StateView>) -> Seq<StateView> {
    match st {
        None => ss,
        Some(x) => {
            let i = index_by_name(ss, x.0);
            if i >= 0 {
                ss.update(i, x)
            } else {
                ss.push(x)
            }
        },
    }
}

/// The template read from lines: fields, finished states and the state
/// being read; `None` on a syntax error.
pub open spec fn load_scan(ls: Seq<Seq<char>>) -> Option<(Seq<FieldView>, Seq<StateView>, Option<StateView>)>
    decreases ls.len(),
{
    if ls.len() == 0 {
        Some((Seq::empty(), Seq::empty(), None))
    } else {
        match load_scan(ls.drop_last()) {
            None => None,
            Some((vs, ss, cur)) => {
                let l = ls.last();
                match line_kind(l) {
                    LineKind::Blank => Some((vs, put_state_view(ss, cur), None)),
                    LineKind::Comment => Some((vs, ss, cur)),
                    LineKind::ValueDef => if cur is Some {
                        None
                    } else {
                        match value_spec(l) {
                            None => None,
                            Some(f) => Some((put_field(vs, f), ss, cur)),
                        }
                    },
                    LineKind::RuleLine => match cur {
                        None => None,
                        Some(c) => match rule_spec(l) {
                            None => None,
                            Some(None) => Some((vs, ss, cur)),
                            Some(Some(r)) => Some((vs, ss, Some((c.0, c.1.push(r))))),
                        },
                    },
                    LineKind::StateHeader => Some(
                        (vs, put_state_view(ss, cur), Some((crate::text::trim_spec(l), Seq::empty()))),
                    ),
                }
            },
        }
    }
}

/// The fields and states of a legacy template, or `None` on a syntax error.
pub open spec fn load_spec(input: Seq<char>) -> Option<(Seq<FieldView>, Seq<StateView>)> {
    match load_scan(crate::fsm::lines_of(input)) {
        None => None,
        Some((vs, ss, cur)) => Some((vs, put_state_view(ss, cur))),
    }
}

pub open spec fn fields_view(v: Seq<ValueDef>) -> Seq<FieldView> {
    v.map_values(|x: ValueDef| field_view(x))
}

pub open spec fn states_view(v: Seq<State>) -> Seq<StateView> {
    v.map_values(|x: State| state_view(x))
}

proof fn lemma_index_by_name_char<T>(v: Seq<(Seq<char>, T)>, name: Seq<char>, i: int)
    requires
        0 <= i <= v.len(),
        forall|j: int| 0 <= j < i ==> (#[trigger] v[j]).0 != name,
        i < v.len() ==> v[i].0 == name,
    ensures
        index_by_name(v, name) == if i < v.len() { i } else { -1 },
    decreases v.len(),
{
    if v.len() > 0 {
        let t = v.drop_last();
        if i < v.len() - 1 {
            assert forall|j: int| 0 <= j < i implies (#[trigger] t[j]).0 != name by {
                assert(t[j] == v[j]);
            }
            assert(t[i] == v[i]);
            lemma_index_by_name_char(t, name, i);
        } else {
            assert forall|j: int| 0 <= j < t.len() implies (#[trigger] t[j]).0 != name by {
                assert(t[j] == v[j]);
            }
            lemma_index_by_name_char(t, name, t.len() as int);
        }
    }
}

proof fn lemma_load_scan_none(ls: Seq<Seq<char>>, k: int)
    requires
        0 <= k <= ls.len(),
        load_scan(ls.subrange(0, k)) is None,
    ensures
        load_scan(ls) is None,
    decreases ls.len() - k,
{
    if k < ls.len() {
        assert(ls.subrange(0, k + 1).drop_last() =~= ls.subrange(0, k));
        lemma_load_scan_none(ls, k + 1);
    } else {
        assert(ls.subrange(0, k) =~= ls);
    }
}

/// Puts `v` in `values`, replacing a field of the same name.
fn put_value(values: &mut Vec<ValueDef>, v: ValueDef)
    ensures
        fields_view(final(values)@) == put_field(fields_view(old(values)@), field_view(v)),
{
    let ghost old_v = fields_view(values@);
    let i = crate::types::find_value(values, v.name.as_str());
    proof {
        crate::types::lemma_first_value_index(values@, v.name@);
        let keyed = old_v.map_values(|x: FieldView| (x.0, x));
        assert forall|j: int| 0 <= j < keyed.len() implies (#[trigger] keyed[j]).0 == values@[j].name@ by {}
        let k = if i < values@.len() { i as int } else { values@.len() as int };
        assert forall|j: int| 0 <= j < k implies (#[trigger] keyed[j]).0 != v.name@ by {
            assert(keyed[j].0 == values@[j].name@);
        }
        lemma_index_by_name_char(keyed, v.name@, k);
    }
    if i < values.len() {
        values.set(i, v);
        assert(fields_view(values@) =~= old_v.update(i as int, field_view(v)));
    } else {
        values.push(v);
        assert(fields_view(values@) =~= old_v.push(field_view(v)));
    }
}

/// Puts `s` in `states`, replacing a state of the same name.
fn put_state(states: &mut Vec<State>, s: Option<State>)
    ensures
        states_view(final(states)@) == put_state_view(states_view(old(states)@), match s {
            Some(x) => Some(state_view(x)),
            None => None,
        }),
{
    let s = match s {
        Some(x) => x,
        None => {
            return;
        },
    };
    let ghost old_v = states_view(states@);
    let i = crate::types::find_state(states, s.name.as_str());
    proof {
        crate::types::lemma_first_state_index(states@, s.name@);
        let k = if i < states@.len() { i as int } else { states@.len() as int };
        assert forall|j: int| 0 <= j < k implies (#[trigger] old_v[j]).0 != s.name@ by {
            assert(old_v[j].0 == states@[j].name@);
        }
        if i < states@.len() {
            assert(old_v[i as int].0 == s.name@);
        }
        lemma_index_by_name_char(old_v, s.name@, k);
    }
    if i < states.len() {
        let ghost sv = state_view(s);
        states.set(i, s);
        assert(states_view(states@) =~= old_v.update(i as int, sv));
    } else {
        let ghost sv = state_view(s);
        states.push(s);
        assert(states_view(states@) =~= old_v.push(sv));
    }
}

impl TextFsmLoader {
    pub fn parse_str(input: &str) -> (r: Result<TemplateIR, ScraperError>)
        ensures
            match load_spec(input@) {
                None => r is Err && r->Err_0.kind_spec() == Some(ErrorKind::TemplateSyntax),
                Some((vs, ss)) => r is Ok && fields_view(r.unwrap().values@) == vs && states_view(
                    r.unwrap().states@,
                ) == ss && r.unwrap().macros@.len() == 0,
            },
    {
        let (ir, _warnings) = Self::parse_str_with_warnings(input)?;
        Ok(ir)
    }

    /// Loads a legacy template, with warnings for unknown `Value` flags and
    /// for rules skipped over unknown actions. Fields and states of the same
    /// name replace earlier ones in place.
    pub fn parse_str_with_warnings(input: &str) -> (r: Result<(TemplateIR, Vec<TemplateWarning>), ScraperError>)
        ensures
            match load_spec(input@) {
                None => r is Err && r->Err_0.kind_spec() == Some(ErrorKind::TemplateSyntax),
                Some((vs, ss)) => r is Ok && fields_view(r.unwrap().0.values@) == vs && states_view(
                    r.unwrap().0.states@,
                ) == ss && r.unwrap().0.macros@.len() == 0 && warns_view(r.unwrap().1@) == load_warnings(
                    crate::fsm::lines_of(input@),
                ),
            },
    {
        let lines = crate::fsm::split_lines(input);
        let ghost ls = crate::fsm::lines_of(input@);
        let mut values: Vec<ValueDef> = Vec::new();
        let mut states: Vec<State> = Vec::new();
        let mut warnings: Vec<TemplateWarning> = Vec::new();
        let mut cur: Option<State> = None;
        let mut i: usize = 0;
        proof {
            assert(ls.subrange(0, 0) =~= Seq::<Seq<char>>::empty());
            assert(warns_view(warnings@) =~= Seq::<WarnView>::empty());
            assert(fields_view(values@) =~= Seq::<FieldView>::empty());
            assert(states_view(states@) =~= Seq::<StateView>::empty());
        }
        while i < lines.len()
            invariant
                i <= lines@.len(),
                crate::fsm::strings_view(lines@) == ls,
                ls == crate::fsm::lines_of(input@),
                warns_view(warnings@) == load_warnings(ls.subrange(0, i as int)),
                load_scan(ls.subrange(0, i as int)) == Some(
                    (
                        fields_view(values@),
                        states_view(states@),
                        match cur {
                            Some(x) => Some(state_view(x)),
                            None => None,
                        },
                    ),
                ),
            decreases lines@.len() - i,
        {
            let l = chars_of(lines[i].as_str());
            proof {
                assert(ls.subrange(0, i + 1).drop_last() =~= ls.subrange(0, i as int));
                assert(ls.subrange(0, i + 1).last() == l@);
            }
            match TextFsmParser::line_kind(&l) {
                LineKind::Blank => {
                    let c = cur;
                    cur = None;
                    put_state(&mut states, c);
                },
                LineKind::Comment => {},
                LineKind::ValueDef => {
                    if cur.is_some() {
                        proof {
                            lemma_load_scan_none(ls, i + 1);
                        }
                        return Err(syntax_error(lit("Value definition inside a state block")));
                    }
                    let v = match TextFsmParser::value_def(&l, &mut warnings) {
                        Ok(v) => v,
                        Err(e) => {
                            proof {
                                lemma_load_scan_none(ls, i + 1);
                            }
                            return Err(e);
                        },
                    };
                    put_value(&mut values, v);
                },
                LineKind::RuleLine => {
                    match cur {
                        None => {
                            proof {
                                lemma_load_scan_none(ls, i + 1);
                            }
                            return Err(syntax_error(crate::text::cat(&["Rule outside of a state: ", lines[i].as_str()])));
                        },
                        Some(mut st) => {
                            match TextFsmParser::rule(&l, &mut warnings) {
                                Err(e) => {
                                    proof {
                                        lemma_load_scan_none(ls, i + 1);
                                    }
                                    return Err(e);
                                },
                                Ok(Some(r)) => {
                                    let ghost before = state_view(st);
                                    let ghost rv = rule_view(r);
                                    st.rules.push(r);
                                    proof {
                                        assert(state_view(st).1 =~= before.1.push(rv));
                                    }
                                    cur = Some(st);
                                },
                                Ok(None) => {
                                    cur = Some(st);
                                },
                            }
                        },
                    }
                },
                LineKind::StateHeader => {
                    let c = cur;
                    put_state(&mut states, c);
                    let (a, b) = trim_bounds(l.as_slice());
                    let name = slice_vec(l.as_slice(), a, b);
                    let st = State { name: string_of(name.as_slice()), rules: Vec::new() };
                    proof {
                        assert(state_view(st).1 =~= Seq::<RuleView>::empty());
                    }
                    cur = Some(st);
                },
            }
            i = i + 1;
        }
        proof {
            assert(ls.subrange(0, i as int) =~= ls);
        }
        put_state(&mut states, cur);
        Ok((TemplateIR { values, states, macros: Vec::new() }, warnings))
    }
}

} // verus!
