//! `{{name}}` macro expansion with cycle detection and a depth bound.
use vstd::prelude::*;
use crate::text::{chars_eq, chars_of, lit, string_of};
use crate::types::{ErrorKind, ScraperError};

verus! {

/// Nesting deeper than this fails.
pub const MAX_DEPTH: usize = 10;

/// A macro table: names and bodies as characters. A later entry shadows an
/// earlier one of the same name.
pub type MacroTable = Seq<(Seq<char>, Seq<char>)>;

/// The macros every template can use.
pub open spec fn builtin_table() -> MacroTable {
    seq![
        ("ipv4"@, "\\d{1,3}\\.\\d{1,3}\\.\\d{1,3}\\.\\d{1,3}"@),
        ("mac_address"@, "(?:[0-9a-fA-F]{2}(?::[0-9a-fA-F]{2}){5}|[0-9a-fA-F]{4}\\.[0-9a-fA-F]{4}\\.[0-9a-fA-F]{4})"@),
        ("interface"@, "\\S+"@),
        ("word"@, "\\w+"@),
        ("eol"@, "$"@),
    ]
}

pub open spec fn pairs_view(v: Seq<(String, String)>) -> MacroTable {
    v.map_values(|p: (String, String)| (p.0@, p.1@))
}

/// The table a template sees: the built-ins, shadowed by its local macros.
pub open spec fn full_table(local: Seq<(String, String)>) -> MacroTable {
    builtin_table() + pairs_view(local)
}

/// The built-in macros, as name/body pairs.
pub fn get_builtin_macros() -> (r: Vec<(String, String)>)
    ensures
        pairs_view(r@) == builtin_table(),
{
    let mut v: Vec<(String, String)> = Vec::new();
    v.push((lit("ipv4"), lit("\\d{1,3}\\.\\d{1,3}\\.\\d{1,3}\\.\\d{1,3}")));
    v.push(
        (
            lit("mac_address"),
            lit(
                "(?:[0-9a-fA-F]{2}(?::[0-9a-fA-F]{2}){5}|[0-9a-fA-F]{4}\\.[0-9a-fA-F]{4}\\.[0-9a-fA-F]{4})",
            ),
        ),
    );
    v.push((lit("interface"), lit("\\S+")));
    v.push((lit("word"), lit("\\w+")));
    v.push((lit("eol"), lit("$")));
    assert(pairs_view(v@) =~= builtin_table());
    v
}

/// The last index of a macro named `name`, or -1.
pub open spec fn macro_index(t: MacroTable, name: Seq<char>) -> int
    decreases t.len(),
{
    if t.len() == 0 {
        -1
    } else if t.last().0 == name {
        t.len() - 1
    } else {
        macro_index(t.drop_last(), name)
    }
}

proof fn lemma_macro_index(t: MacroTable, name: Seq<char>)
    ensures
        -1 <= macro_index(t, name) < t.len(),
        macro_index(t, name) >= 0 ==> t[macro_index(t, name)].0 == name,
    decreases t.len(),
{
    if t.len() > 0 {
        lemma_macro_index(t.drop_last(), name);
    }
}

pub open spec fn is_ident(c: char) -> bool {
    ('a' <= c && c <= 'z') || ('A' <= c && c <= 'Z') || ('0' <= c && c <= '9') || c == '_'
}

/// The number of identifier characters starting at `p`.
pub open spec fn ident_run(s: Seq<char>, p: int) -> nat
    decreases s.len() - p,
{
    if 0 <= p < s.len() && is_ident(s[p]) {
        1 + ident_run(s, p + 1)
    } else {
        0
    }
}

/// If a token `{{name}}` starts at `p`, the end of its name (`name` spans
/// `p + 2 .. end`; the token ends at `end + 2`).
pub open spec fn token_at(s: Seq<char>, p: int) -> Option<int> {
    let n = ident_run(s, p + 2);
    if 0 <= p && p + 4 + n <= s.len() && s[p] == '{' && s[p + 1] == '{' && n > 0 && s[p + 2 + n]
        == '}' && s[p + 3 + n] == '}' {
        Some(p + 2 + n)
    } else {
        None
    }
}

pub open spec fn prepend(x: Seq<char>, r: Result<Seq<char>, ErrorKind>) -> Result<Seq<char>, ErrorKind> {
    match r {
        Ok(y) => Ok(x + y),
        Err(e) => Err(e),
    }
}

/// The expansions of the macros expanded so far in one call.
pub type Memo = Map<Seq<char>, Seq<char>>;

/// A failed expansion: its kind, and for a cycle the macros that take part
/// in it, from the first on the visit stack to the one that closes it.
pub type ExpandErr = (ErrorKind, Seq<Seq<char>>);

/// The position of the first `n` in `st` (its length if there is none).
pub open spec fn first_pos(st: Seq<Seq<char>>, n: Seq<char>) -> int
    decreases st.len(),
{
    if st.len() == 0 {
        0
    } else if st[0] == n {
        0
    } else {
        1 + first_pos(st.subrange(1, st.len() as int), n)
    }
}

proof fn lemma_first_pos(st: Seq<Seq<char>>, n: Seq<char>, j: int)
    requires
        0 <= j < st.len(),
        st[j] == n,
        forall|i: int| 0 <= i < j ==> st[i] != n,
    ensures
        first_pos(st, n) == j,
    decreases st.len(),
{
    if j > 0 {
        let t = st.subrange(1, st.len() as int);
        assert forall|i: int| 0 <= i < j - 1 implies t[i] != n by {
            assert(t[i] == st[i + 1]);
        }
        assert(t[j - 1] == st[j]);
        lemma_first_pos(t, n, j - 1);
    }
}

/// Names joined by ` -> `.
pub open spec fn arrows(chain: Seq<Seq<char>>) -> Seq<char>
    decreases chain.len(),
{
    if chain.len() == 0 {
        Seq::empty()
    } else if chain.len() == 1 {
        chain[0]
    } else {
        arrows(chain.drop_last()) + " -> "@ + chain.last()
    }
}

/// The message of a cycle error, naming its participants in order.
pub open spec fn cycle_message(chain: Seq<Seq<char>>) -> Seq<char> {
    "Macro expansion cycle detected: "@ + arrows(chain)
}

pub open spec fn prepend_memo(x: Seq<char>, r: Result<(Seq<char>, Memo), ExpandErr>) -> Result<(Seq<char>, Memo), ExpandErr> {
    match r {
        Ok((y, m)) => Ok((x + y, m)),
        Err(e) => Err(e),
    }
}

/// The expansion of `s` from position `p` on, at nesting `depth`, while the
/// macros in `stack` are being expanded, with the expansions in `memo`
/// reused; also the memo afterwards (each macro expanded is recorded).
pub open spec fn expand_from(
    s: Seq<char>,
    p: int,
    t: MacroTable,
    stack: Seq<Seq<char>>,
    depth: nat,
    memo: Memo,
) -> Result<(Seq<char>, Memo), ExpandErr>
    decreases MAX_DEPTH + 1 - depth, s.len() - p,
{
    if depth > MAX_DEPTH {
        Err((ErrorKind::MacroTooDeep, Seq::empty()))
    } else if p < 0 || p >= s.len() {
        Ok((Seq::empty(), memo))
    } else {
        match token_at(s, p) {
            None => prepend_memo(seq![s[p]], expand_from(s, p + 1, t, stack, depth, memo)),
            Some(end) => {
                let name = s.subrange(p + 2, end);
                let i = macro_index(t, name);
                if i < 0 {
                    Err((ErrorKind::MacroUnknown, Seq::empty()))
                } else if memo.contains_key(name) {
                    prepend_memo(memo[name], expand_from(s, end + 2, t, stack, depth, memo))
                } else if stack.contains(name) {
                    Err((ErrorKind::MacroCycle, stack.subrange(first_pos(stack, name), stack.len() as int).push(name)))
                } else {
                    match expand_from(t[i].1, 0, t, stack.push(name), depth + 1, memo) {
                        Err(e) => Err(e),
                        Ok((x, m1)) => prepend_memo(x, expand_from(s, end + 2, t, stack, depth, m1.insert(name, x))),
                    }
                }
            },
        }
    }
}

/// The full expansion of `s` against the table `t`.
pub open spec fn expand_spec(s: Seq<char>, t: MacroTable) -> Result<Seq<char>, ErrorKind> {
    match expand_from(s, 0, t, Seq::empty(), 0, Map::empty()) {
        Ok((x, _)) => Ok(x),
        Err(e) => Err(e.0),
    }
}

/// The participants of the cycle that stops the expansion of `s`, if any.
pub open spec fn expand_cycle(s: Seq<char>, t: MacroTable) -> Seq<Seq<char>> {
    match expand_from(s, 0, t, Seq::empty(), 0, Map::empty()) {
        Err(e) => e.1,
        Ok(_) => Seq::empty(),
    }
}

/// The memo a list of (name, expansion) pairs stands for: later pairs win.
pub open spec fn memo_view(v: Seq<(Vec<char>, Vec<char>)>) -> Memo
    decreases v.len(),
{
    if v.len() == 0 {
        Map::empty()
    } else {
        memo_view(v.drop_last()).insert(v.last().0@, v.last().1@)
    }
}

proof fn lemma_memo_lookup(v: Seq<(Vec<char>, Vec<char>)>, name: Seq<char>, k: int)
    requires
        0 <= k <= v.len(),
        forall|j: int| k <= j < v.len() ==> (#[trigger] v[j]).0@ != name,
        k > 0 ==> v[k - 1].0@ == name,
    ensures
        k > 0 ==> memo_view(v).contains_key(name) && memo_view(v)[name] == v[k - 1].1@,
        k == 0 ==> !memo_view(v).contains_key(name),
    decreases v.len(),
{
    if v.len() > 0 {
        let t = v.drop_last();
        if k < v.len() {
            assert forall|j: int| k <= j < t.len() implies (#[trigger] t[j]).0@ != name by {
                assert(t[j] == v[j]);
            }
            if k > 0 {
                assert(t[k - 1] == v[k - 1]);
            }
            lemma_memo_lookup(t, name, k);
        }
    }
}

/// The memoized expansion of `name`, if any.
fn memo_get(memo: &Vec<(Vec<char>, Vec<char>)>, name: &Vec<char>) -> (r: Option<Vec<char>>)
    ensures
        match r {
            Some(x) => memo_view(memo@).contains_key(name@) && memo_view(memo@)[name@] == x@,
            None => !memo_view(memo@).contains_key(name@),
        },
{
    let mut k: usize = memo.len();
    while k > 0
        invariant
            k <= memo@.len(),
            forall|j: int| k <= j < memo@.len() ==> (#[trigger] memo@[j]).0@ != name@,
        decreases k,
    {
        if chars_eq(memo[k - 1].0.as_slice(), name.as_slice()) {
            proof {
                lemma_memo_lookup(memo@, name@, k as int);
            }
            let v = crate::text::slice_vec(memo[k - 1].1.as_slice(), 0, memo[k - 1].1.len());
            proof {
                assert(memo@[k - 1].1@.subrange(0, memo@[k - 1].1@.len() as int) =~= memo@[k - 1].1@);
            }
            return Some(v);
        }
        k = k - 1;
    }
    proof {
        lemma_memo_lookup(memo@, name@, 0);
    }
    None
}

fn is_ident_char(c: char) -> (r: bool)
    ensures
        r == is_ident(c),
{
    ('a' <= c && c <= 'z') || ('A' <= c && c <= 'Z') || ('0' <= c && c <= '9') || c == '_'
}

fn find_token(s: &Vec<char>, p: usize) -> (r: Option<usize>)
    requires
        p < s@.len(),
    ensures
        match token_at(s@, p as int) {
            Some(e) => r == Some(e as usize),
            None => r is None,
        },
{
    if s.len() - p < 2 || s[p] != '{' || s[p + 1] != '{' {
        return None;
    }
    let mut q: usize = p + 2;
    while q < s.len() && is_ident_char(s[q])
        invariant
            p + 2 <= q <= s@.len(),
            forall|k: int| p + 2 <= k < q ==> is_ident(#[trigger] s@[k]),
            ident_run(s@, p + 2) == (q - (p + 2)) + ident_run(s@, q as int),
        decreases s@.len() - q,
    {
        q = q + 1;
    }
    assert(ident_run(s@, q as int) == 0);
    if q == p + 2 || s.len() - q < 2 || s[q] != '}' || s[q + 1] != '}' {
        return None;
    }
    Some(q)
}

fn table_index(t: &Vec<(Vec<char>, Vec<char>)>, name: &Vec<char>) -> (r: Option<usize>)
    ensures
        match r {
            Some(i) => i as int == macro_index(table_view(t@), name@),
            None => macro_index(table_view(t@), name@) < 0,
        },
{
    let mut i: usize = t.len();
    assert(table_view(t@).subrange(0, i as int) =~= table_view(t@));
    while i > 0
        invariant
            i <= t@.len(),
            macro_index(table_view(t@), name@) == macro_index(table_view(t@).subrange(0, i as int), name@),
        decreases i,
    {
        proof {
            assert(table_view(t@).subrange(0, i as int).drop_last() =~= table_view(t@).subrange(0, i - 1));
        }
        if chars_eq(t[i - 1].0.as_slice(), name.as_slice()) {
            return Some(i - 1);
        }
        i = i - 1;
    }
    None
}

pub open spec fn table_view(t: Seq<(Vec<char>, Vec<char>)>) -> MacroTable {
    t.map_values(|p: (Vec<char>, Vec<char>)| (p.0@, p.1@))
}

pub open spec fn stack_view(s: Seq<Vec<char>>) -> Seq<Seq<char>> {
    s.map_values(|v: Vec<char>| v@)
}

fn stack_contains(stack: &Vec<Vec<char>>, name: &Vec<char>) -> (r: bool)
    ensures
        r == stack_view(stack@).contains(name@),
{
    let ghost sv = stack_view(stack@);
    let mut i: usize = 0;
    while i < stack.len()
        invariant
            i <= stack@.len(),
            sv == stack_view(stack@),
            forall|j: int| 0 <= j < i ==> sv[j] != name@,
        decreases stack@.len() - i,
    {
        if chars_eq(stack[i].as_slice(), name.as_slice()) {
            assert(sv[i as int] == name@);
            return true;
        }
        i = i + 1;
    }
    false
}

fn push_str_chars(out: &mut Vec<char>, s: &str)
    ensures
        final(out)@ == old(out)@ + s@,
{
    let mut v = chars_of(s);
    out.append(&mut v);
}

/// Expands `s`: a recursive walk with an explicit visit stack, reusing
/// and recording expansions in `memo`.
fn expand_string(
    s: &Vec<char>,
    t: &Vec<(Vec<char>, Vec<char>)>,
    stack: &mut Vec<Vec<char>>,
    memo: &mut Vec<(Vec<char>, Vec<char>)>,
    depth: usize,
) -> (r: Result<Vec<char>, (ErrorKind, Vec<char>)>)
    requires
        depth <= MAX_DEPTH + 1,
    ensures
        stack_view(final(stack)@) == stack_view(old(stack)@),
        match expand_from(s@, 0, table_view(t@), stack_view(old(stack)@), depth as nat, memo_view(old(memo)@)) {
            Ok((x, m)) => r is Ok && r.unwrap()@ == x && memo_view(final(memo)@) == m,
            Err(e) => r is Err && r->Err_0.0 == e.0 && (e.0 == ErrorKind::MacroCycle ==> r->Err_0.1@
                == cycle_message(e.1)),
        },
    decreases MAX_DEPTH + 1 - depth,
{
    let ghost tv = table_view(t@);
    let ghost sv = stack_view(stack@);
    let ghost m0 = memo_view(memo@);
    if depth > MAX_DEPTH {
        let mut m: Vec<char> = Vec::new();
        push_str_chars(&mut m, "Macro expansion exceeded max depth 10");
        return Err((ErrorKind::MacroTooDeep, m));
    }
    let mut out: Vec<char> = Vec::new();
    let mut p: usize = 0;
    while p < s.len()
        invariant
            depth <= MAX_DEPTH,
            p <= s@.len(),
            tv == table_view(t@),
            stack_view(stack@) == sv,
            sv == stack_view(old(stack)@),
            m0 == memo_view(old(memo)@),
            expand_from(s@, 0, tv, sv, depth as nat, m0) == prepend_memo(
                out@,
                expand_from(s@, p as int, tv, sv, depth as nat, memo_view(memo@)),
            ),
        decreases s@.len() - p,
    {
        let ghost mc = memo_view(memo@);
        let tok = find_token(s, p);
        match tok {
            None => {
                proof {
                    let rest = expand_from(s@, p + 1, tv, sv, depth as nat, mc);
                    if let Ok((y, m)) = rest {
                        assert(out@ + (seq![s@[p as int]] + y) =~= out@.push(s@[p as int]) + y);
                    }
                }
                out.push(s[p]);
                p = p + 1;
            },
            Some(end) => {
                let name = crate::text::slice_vec(s.as_slice(), p + 2, end);
                let idx = table_index(t, &name);
                match idx {
                    None => {
                        let mut m: Vec<char> = Vec::new();
                        push_str_chars(&mut m, "Unknown macro '{{");
                        let mut n2 = name.clone();
                        m.append(&mut n2);
                        push_str_chars(&mut m, "}}' - macros must be defined before use");
                        return Err((ErrorKind::MacroUnknown, m));
                    },
                    Some(i) => {
                        proof {
                            lemma_macro_index(tv, name@);
                            assert(name@ == s@.subrange(p + 2, end as int));
                        }
                        match memo_get(memo, &name) {
                            Some(x) => {
                                proof {
                                    let rest = expand_from(s@, end + 2, tv, sv, depth as nat, mc);
                                    if let Ok((y, m)) = rest {
                                        assert(out@ + (x@ + y) =~= (out@ + x@) + y);
                                    }
                                }
                                let mut x2 = x;
                                out.append(&mut x2);
                                p = end + 2;
                            },
                            None => {
                                if stack_contains(stack, &name) {
                                    let n = stack.len();
                                    let mut pos: usize = 0;
                                    while pos < n && !chars_eq(stack[pos].as_slice(), name.as_slice())
                                        invariant
                                            n == stack@.len(),
                                            pos <= n,
                                            stack_view(stack@) == sv,
                                            sv.contains(name@),
                                            forall|i: int| 0 <= i < pos ==> sv[i] != name@,
                                        decreases n - pos,
                                    {
                                        proof {
                                            assert(sv[pos as int] == stack@[pos as int]@);
                                        }
                                        pos = pos + 1;
                                    }
                                    proof {
                                        if pos == n {
                                            let w = choose|w: int| 0 <= w < sv.len() && sv[w] == name@;
                                            assert(sv[w] != name@);
                                        }
                                        assert(sv[pos as int] == stack@[pos as int]@);
                                        lemma_first_pos(sv, name@, pos as int);
                                    }
                                    let mut acc: Vec<char> = Vec::new();
                                    let mut k: usize = pos;
                                    proof {
                                        assert(sv.subrange(pos as int, pos as int) =~= Seq::<Seq<char>>::empty());
                                    }
                                    while k < n
                                        invariant
                                            n == stack@.len(),
                                            pos < n,
                                            pos <= k <= n,
                                            stack_view(stack@) == sv,
                                            acc@ == arrows(sv.subrange(pos as int, k as int)),
                                        decreases n - k,
                                    {
                                        let ghost sub = sv.subrange(pos as int, k + 1);
                                        proof {
                                            assert(sub.drop_last() =~= sv.subrange(pos as int, k as int));
                                            assert(sub.last() == stack@[k as int]@);
                                        }
                                        if k > pos {
                                            push_str_chars(&mut acc, " -> ");
                                        }
                                        let mut part = crate::text::slice_vec(stack[k].as_slice(), 0, stack[k].len());
                                        proof {
                                            assert(stack@[k as int]@.subrange(0, stack@[k as int]@.len() as int) =~= stack@[k as int]@);
                                            if k == pos {
                                                assert(acc@ =~= Seq::<char>::empty());
                                            }
                                        }
                                        acc.append(&mut part);
                                        k = k + 1;
                                        proof {
                                            if k - 1 == pos {
                                                assert(acc@ =~= sub[0]);
                                            } else {
                                                assert(acc@ =~= arrows(sub.drop_last()) + " -> "@ + sub.last());
                                            }
                                        }
                                    }
                                    let mut m: Vec<char> = Vec::new();
                                    push_str_chars(&mut m, "Macro expansion cycle detected: ");
                                    m.append(&mut acc);
                                    push_str_chars(&mut m, " -> ");
                                    let mut n2 = crate::text::slice_vec(name.as_slice(), 0, name.len());
                                    m.append(&mut n2);
                                    proof {
                                        let chain = sv.subrange(pos as int, n as int).push(name@);
                                        assert(chain.drop_last() =~= sv.subrange(pos as int, n as int));
                                        assert(name@.subrange(0, name@.len() as int) =~= name@);
                                        assert(m@ =~= cycle_message(chain));
                                    }
                                    return Err((ErrorKind::MacroCycle, m));
                                }
                                let ghost nv = name@;
                                let key = name.clone();
                                proof {
                                    assert(key@ == nv);
                                }
                                stack.push(name);
                                proof {
                                    assert(stack_view(stack@) =~= sv.push(nv));
                                }
                                let body = crate::text::slice_vec(t[i].1.as_slice(), 0, t[i].1.len());
                                proof {
                                    assert(t@[i as int].1@.subrange(0, t@[i as int].1@.len() as int) =~= t@[i as int].1@);
                                }
                                let sub = expand_string(&body, t, stack, memo, depth + 1);
                                let ghost before_pop = stack@;
                                let _ = stack.pop();
                                proof {
                                    assert(stack_view(stack@) =~= stack_view(before_pop).drop_last());
                                    assert(stack_view(stack@) =~= sv);
                                }
                                match sub {
                                    Err(e) => {
                                        return Err(e);
                                    },
                                    Ok(x) => {
                                        let ghost m1 = memo_view(memo@);
                                        let xc = crate::text::slice_vec(x.as_slice(), 0, x.len());
                                        proof {
                                            assert(x@.subrange(0, x@.len() as int) =~= x@);
                                        }
                                        let ghost prev_memo = memo@;
                                        memo.push((key, xc));
                                        proof {
                                            assert(memo@.drop_last() == prev_memo);
                                            assert(memo_view(memo@) == m1.insert(nv, x@));
                                            let rest = expand_from(s@, end + 2, tv, sv, depth as nat, m1.insert(nv, x@));
                                            if let Ok((y, m)) = rest {
                                                assert(out@ + (x@ + y) =~= (out@ + x@) + y);
                                            }
                                        }
                                        let mut x2 = x;
                                        out.append(&mut x2);
                                        p = end + 2;
                                    },
                                }
                            },
                        }
                    },
                }
            },
        }
    }
    proof {
        assert(out@ + Seq::<char>::empty() =~= out@);
    }
    Ok(out)
}

/// Expands every `{{name}}` of `regex` against the built-in macros shadowed
/// by `local_overrides`, recursively and memoized within the call, failing on
/// an unknown name, a cycle, or nesting deeper than `MAX_DEPTH`.
pub fn expand_macros(regex: &str, local_overrides: &Vec<(String, String)>) -> (r: Result<
    String,
    ScraperError,
>)
    ensures
        match expand_spec(regex@, full_table(local_overrides@)) {
            Ok(x) => r is Ok && r.unwrap()@ == x,
            Err(k) => r is Err && r->Err_0.kind_spec() == Some(k),
        },
        expand_spec(regex@, full_table(local_overrides@)) == Err::<Seq<char>, ErrorKind>(ErrorKind::MacroCycle)
            ==> r->Err_0.message_spec() == cycle_message(expand_cycle(regex@, full_table(local_overrides@))),
{
    let builtins = get_builtin_macros();
    let mut table: Vec<(Vec<char>, Vec<char>)> = Vec::new();
    let mut i: usize = 0;
    while i < builtins.len()
        invariant
            i <= builtins@.len(),
            table_view(table@) == pairs_view(builtins@).subrange(0, i as int),
        decreases builtins@.len() - i,
    {
        let ghost prev = table@;
        table.push((chars_of(builtins[i].0.as_str()), chars_of(builtins[i].1.as_str())));
        proof {
            assert(table@ == prev.push(table@.last()));
            assert(table_view(table@) =~= table_view(prev).push(pairs_view(builtins@)[i as int]));
        }
        i = i + 1;
        assert(table_view(table@) =~= pairs_view(builtins@).subrange(0, i as int));
    }
    let mut j: usize = 0;
    while j < local_overrides.len()
        invariant
            j <= local_overrides@.len(),
            table_view(table@) == builtin_table() + pairs_view(local_overrides@).subrange(0, j as int),
        decreases local_overrides@.len() - j,
    {
        let ghost prev = table@;
        table.push(
            (chars_of(local_overrides[j].0.as_str()), chars_of(local_overrides[j].1.as_str())),
        );
        proof {
            assert(table_view(table@) =~= table_view(prev).push(pairs_view(local_overrides@)[j as int]));
        }
        j = j + 1;
        assert(table_view(table@) =~= builtin_table() + pairs_view(local_overrides@).subrange(
            0,
            j as int,
        ));
    }
    assert(pairs_view(builtins@).subrange(0, builtins@.len() as int) =~= builtin_table());
    assert(pairs_view(local_overrides@).subrange(0, local_overrides@.len() as int)
        =~= pairs_view(local_overrides@));
    let input = chars_of(regex);
    let mut stack: Vec<Vec<char>> = Vec::new();
    let mut memo: Vec<(Vec<char>, Vec<char>)> = Vec::new();
    assert(stack_view(stack@) =~= Seq::<Seq<char>>::empty());
    assert(memo_view(memo@) =~= Map::<Seq<char>, Seq<char>>::empty());
    match expand_string(&input, &table, &mut stack, &mut memo, 0) {
        Ok(x) => Ok(string_of(x.as_slice())),
        Err((k, m)) => Err(ScraperError::Parse(k, string_of(m.as_slice()))),
    }
}

} // verus!
