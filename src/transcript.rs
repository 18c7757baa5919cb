//! Segmentation of captured CLI sessions into per-command output blocks.
use vstd::prelude::*;
use crate::fsm::{lines_of, split_lines, strings_view};
use crate::text::{chars_of, lit, string_of, str_eq};

verus! {

pub open spec fn is_base_char(c: char) -> bool {
    ('a' <= c && c <= 'z') || ('A' <= c && c <= 'Z') || ('0' <= c && c <= '9') || c == '_' || c
        == '.' || c == ':' || c == '-'
}

/// The number of host-token characters from `p` on.
pub open spec fn base_run(s: Seq<char>, p: int) -> nat
    decreases s.len() - p,
{
    if 0 <= p < s.len() && is_base_char(s[p]) {
        1 + base_run(s, p + 1)
    } else {
        0
    }
}

/// The first `)` at or after `p`, if no line break comes before it.
pub open spec fn close_paren(s: Seq<char>, p: int) -> Option<int>
    decreases s.len() - p,
{
    if p < 0 || p >= s.len() || s[p] == '\r' || s[p] == '\n' {
        None
    } else if s[p] == ')' {
        Some(p)
    } else {
        close_paren(s, p + 1)
    }
}

/// The number of spaces and tabs from `p` on.
pub open spec fn blank_run(s: Seq<char>, p: int) -> nat
    decreases s.len() - p,
{
    if 0 <= p < s.len() && (s[p] == ' ' || s[p] == '\t') {
        1 + blank_run(s, p + 1)
    } else {
        0
    }
}

/// Where the terminator `#`/`>` of a prompt would stand, after the host token
/// and an optional parenthesized mode tag.
pub open spec fn terminator_at(s: Seq<char>) -> Option<int> {
    let n = base_run(s, 0) as int;
    if n == 0 {
        None
    } else if n < s.len() && s[n] == '(' {
        match close_paren(s, n + 1) {
            Some(q) => Some(q + 1),
            None => None,
        }
    } else {
        Some(n)
    }
}

/// A prompt line: its host token and whether a non-blank command follows.
/// Prompts are `HOST[(MODE)]#` or `HOST[(MODE)]>`, optionally followed by
/// blanks and an echoed command.
pub open spec fn prompt_of(s: Seq<char>) -> Option<(Seq<char>, bool)> {
    match terminator_at(s) {
        None => None,
        Some(p) => if p >= s.len() || !(s[p] == '#' || s[p] == '>') {
            None
        } else if p + 1 == s.len() {
            Some((s.subrange(0, base_run(s, 0) as int), false))
        } else if blank_run(s, p + 1) == 0 {
            None
        } else {
            let cmd = s.subrange(p + 1 + blank_run(s, p + 1), s.len() as int);
            Some((s.subrange(0, base_run(s, 0) as int), crate::text::trim_spec(cmd).len() > 0))
        },
    }
}

/// `l` without trailing carriage returns.
pub open spec fn clean(l: Seq<char>) -> Seq<char>
    decreases l.len(),
{
    if l.len() > 0 && l.last() == '\r' {
        clean(l.drop_last())
    } else {
        l
    }
}

/// Whether segmentation applies: some host token starts two prompt lines, or
/// the first line is a prompt with a command.
pub open spec fn confident(ls: Seq<Seq<char>>) -> bool {
    (exists|i: int, j: int|
        0 <= i < j < ls.len() && (#[trigger] prompt_of(clean(ls[i]))) is Some && (#[trigger] prompt_of(
            clean(ls[j]),
        )) is Some && prompt_of(clean(ls[i])).unwrap().0 == prompt_of(clean(ls[j])).unwrap().0)
        || (ls.len() > 0 && prompt_of(clean(ls[0])) is Some && prompt_of(clean(ls[0])).unwrap().1)
}

/// The blocks after scanning `ls`: finished blocks, the lines of the block
/// in progress, and whether a command echo was seen.
pub open spec fn segment(ls: Seq<Seq<char>>) -> (Seq<Seq<Seq<char>>>, Seq<Seq<char>>, bool)
    decreases ls.len(),
{
    if ls.len() == 0 {
        (Seq::empty(), Seq::empty(), false)
    } else {
        let (bs, cur, started) = segment(ls.drop_last());
        let l = clean(ls.last());
        match prompt_of(l) {
            Some(p) => {
                let bs2 = if cur.len() > 0 {
                    bs.push(cur)
                } else {
                    bs
                };
                (bs2, Seq::empty(), started || p.1)
            },
            None => if started {
                (bs, cur.push(l), started)
            } else {
                (bs, cur, started)
            },
        }
    }
}

/// Lines joined by newlines.
pub open spec fn join_nl(ls: Seq<Seq<char>>) -> Seq<char>
    decreases ls.len(),
{
    if ls.len() == 0 {
        Seq::empty()
    } else if ls.len() == 1 {
        ls[0]
    } else {
        join_nl(ls.drop_last()) + seq!['\n'] + ls.last()
    }
}

pub open spec fn joined_blocks(bs: Seq<Seq<Seq<char>>>) -> Seq<Seq<char>> {
    bs.map_values(|b: Seq<Seq<char>>| join_nl(b))
}

/// The per-command blocks of `raw`, or `raw` itself as the only block.
pub open spec fn transcript_blocks(raw: Seq<char>) -> Seq<Seq<char>> {
    let ls = lines_of(raw);
    if !confident(ls) {
        seq![raw]
    } else {
        let (bs, cur, started) = segment(ls);
        let all = if cur.len() > 0 {
            bs.push(cur)
        } else {
            bs
        };
        if !started || all.len() == 0 {
            seq![raw]
        } else {
            joined_blocks(all)
        }
    }
}

fn is_base_char_exec(c: char) -> (r: bool)
    ensures
        r == is_base_char(c),
{
    ('a' <= c && c <= 'z') || ('A' <= c && c <= 'Z') || ('0' <= c && c <= '9') || c == '_' || c
        == '.' || c == ':' || c == '-'
}

/// Classifies one line.
pub fn parse_prompt_line(s: &Vec<char>) -> (r: Option<(Vec<char>, bool)>)
    ensures
        match prompt_of(s@) {
            Some(p) => r is Some && r.unwrap().0@ == p.0 && r.unwrap().1 == p.1,
            None => r is None,
        },
{
    let n = s.len();
    let mut b: usize = 0;
    while b < n && is_base_char_exec(s[b])
        invariant
            n == s@.len(),
            b <= n,
            base_run(s@, 0) == b + base_run(s@, b as int),
        decreases n - b,
    {
        b = b + 1;
    }
    if b == 0 {
        return None;
    }
    let mut p: usize = b;
    if b < n && s[b] == '(' {
        let mut q: usize = b + 1;
        while q < n && s[q] != ')' && s[q] != '\r' && s[q] != '\n'
            invariant
                n == s@.len(),
                b + 1 <= q <= n,
                close_paren(s@, b + 1) == close_paren(s@, q as int),
            decreases n - q,
        {
            q = q + 1;
        }
        if q >= n || s[q] != ')' {
            return None;
        }
        p = q + 1;
    }
    if p >= n || !(s[p] == '#' || s[p] == '>') {
        return None;
    }
    let base = crate::text::slice_vec(s.as_slice(), 0, b);
    if p + 1 == n {
        return Some((base, false));
    }
    let mut w: usize = p + 1;
    while w < n && (s[w] == ' ' || s[w] == '\t')
        invariant
            n == s@.len(),
            p + 1 <= w <= n,
            blank_run(s@, p + 1) == (w - (p + 1)) + blank_run(s@, w as int),
        decreases n - w,
    {
        w = w + 1;
    }
    if w == p + 1 {
        return None;
    }
    let cmd = crate::text::slice_vec(s.as_slice(), w, n);
    let (x, y) = crate::text::trim_bounds(cmd.as_slice());
    Some((base, x < y))
}

fn clean_line(l: &String) -> (r: Vec<char>)
    ensures
        r@ == clean(l@),
{
    let mut v = chars_of(l.as_str());
    while v.len() > 0 && v[v.len() - 1] == '\r'
        invariant
            clean(v@) == clean(l@),
        decreases v@.len(),
    {
        v.pop();
    }
    v
}

fn join_lines(ls: &Vec<Vec<char>>) -> (r: String)
    ensures
        r@ == join_nl(vecs_view(ls@)),
{
    let ghost lv = vecs_view(ls@);
    let mut out: Vec<char> = Vec::new();
    let mut i: usize = 0;
    while i < ls.len()
        invariant
            i <= ls@.len(),
            lv == vecs_view(ls@),
            out@ == join_nl(lv.subrange(0, i as int)),
        decreases ls@.len() - i,
    {
        proof {
            assert(lv.subrange(0, i + 1).drop_last() =~= lv.subrange(0, i as int));
        }
        if i > 0 {
            out.push('\n');
        }
        let mut c = crate::text::slice_vec(ls[i].as_slice(), 0, ls[i].len());
        proof {
            assert(ls@[i as int]@.subrange(0, ls@[i as int]@.len() as int) =~= ls@[i as int]@);
        }
        out.append(&mut c);
        i = i + 1;
        proof {
            let s = lv.subrange(0, i as int);
            if i == 1 {
                assert(out@ =~= s[0]);
            } else {
                assert(out@ =~= join_nl(s.drop_last()) + seq!['\n'] + s.last());
            }
        }
    }
    proof {
        assert(lv.subrange(0, i as int) =~= lv);
    }
    string_of(out.as_slice())
}

/// Splits a captured session into per-command output blocks, dropping prompt
/// lines and command echoes; when it is not confident that `raw` is a
/// session, `raw` is the only block.
pub fn segment_transcript(raw: &str) -> (r: Vec<String>)
    ensures
        strings_view(r@) == transcript_blocks(raw@),
{
    let lines = split_lines(raw);
    let ghost ls = lines_of(raw@);
    let n = lines.len();
    let mut cleaned: Vec<Vec<char>> = Vec::new();
    let mut prompts: Vec<Option<(Vec<char>, bool)>> = Vec::new();
    let mut i: usize = 0;
    while i < n
        invariant
            n == lines@.len(),
            strings_view(lines@) == ls,
            i <= n,
            cleaned@.len() == i,
            prompts@.len() == i,
            forall|k: int| 0 <= k < i ==> (#[trigger] cleaned@[k])@ == clean(ls[k]),
            forall|k: int|
                0 <= k < i ==> match prompt_of(clean(ls[k])) {
                    Some(p) => (#[trigger] prompts@[k]) is Some && prompts@[k].unwrap().0@ == p.0
                        && prompts@[k].unwrap().1 == p.1,
                    None => prompts@[k] is None,
                },
        decreases n - i,
    {
        let c = clean_line(&lines[i]);
        let p = parse_prompt_line(&c);
        cleaned.push(c);
        prompts.push(p);
        i = i + 1;
    }
    // Confidence: a repeated host token, or a command echo on the first line.
    let mut dup = false;
    let mut a: usize = 0;
    while a < n && !dup
        invariant
            n == prompts@.len(),
            n == ls.len(),
            a <= n,
            forall|k: int|
                0 <= k < n ==> match prompt_of(clean(ls[k])) {
                    Some(p) => (#[trigger] prompts@[k]) is Some && prompts@[k].unwrap().0@ == p.0
                        && prompts@[k].unwrap().1 == p.1,
                    None => prompts@[k] is None,
                },
            dup ==> confident(ls),
            !dup ==> forall|x: int, y: int|
                0 <= x < a && x < y < n ==> !((#[trigger] prompt_of(clean(ls[x]))) is Some && (#[trigger] prompt_of(clean(ls[y]))) is Some
                    && prompt_of(clean(ls[x])).unwrap().0 == prompt_of(clean(ls[y])).unwrap().0),
        decreases n - a + (if dup { 0int } else { 1int }),
    {
        match &prompts[a] {
            Some((ba, _)) => {
                let mut b: usize = a + 1;
                while b < n && !dup
                    invariant
                        n == prompts@.len(),
                        n == ls.len(),
                        a < b <= n,
                        prompts@[a as int] == Some((*ba, prompts@[a as int].unwrap().1)),
                        forall|k: int|
                            0 <= k < n ==> match prompt_of(clean(ls[k])) {
                                Some(p) => (#[trigger] prompts@[k]) is Some && prompts@[k].unwrap().0@ == p.0
                                    && prompts@[k].unwrap().1 == p.1,
                                None => prompts@[k] is None,
                            },
                        dup ==> confident(ls),
                        !dup ==> forall|y: int|
                            a < y < b ==> !((#[trigger] prompt_of(clean(ls[y]))) is Some
                                && prompt_of(clean(ls[a as int])).unwrap().0 == prompt_of(clean(ls[y])).unwrap().0),
                    decreases n - b + (if dup { 0int } else { 1int }),
                {
                    match &prompts[b] {
                        Some((bb, _)) => {
                            if crate::text::chars_eq(ba.as_slice(), bb.as_slice()) {
                                dup = true;
                                proof {
                                    assert(prompts@[b as int] is Some);
                                    assert(prompt_of(clean(ls[a as int])) is Some);
                                    assert(prompt_of(clean(ls[b as int])) is Some);
                                }
                            } else {
                                b = b + 1;
                            }
                        },
                        None => {
                            proof {
                                assert(prompts@[b as int] is None);
                            }
                            b = b + 1;
                        },
                    }
                }
            },
            None => {
                proof {
                    assert(prompts@[a as int] is None);
                    assert(prompt_of(clean(ls[a as int])) is None);
                }
            },
        }
        if !dup {
            a = a + 1;
        }
    }
    let first_echo = n > 0 && match &prompts[0] {
        Some((_, c)) => *c,
        None => false,
    };
    if !dup && !first_echo {
        proof {
            if n > 0 {
                assert(prompts@[0] is Some ==> prompts@[0].unwrap().1 == prompt_of(clean(ls[0])).unwrap().1);
            }
        }
        return vec![lit(raw)];
    }
    let mut blocks: Vec<Vec<Vec<char>>> = Vec::new();
    let mut cur: Vec<Vec<char>> = Vec::new();
    let mut started = false;
    let mut i: usize = 0;
    while i < n
        invariant
            n == ls.len(),
            n == cleaned@.len(),
            n == prompts@.len(),
            i <= n,
            forall|k: int| 0 <= k < n ==> (#[trigger] cleaned@[k])@ == clean(ls[k]),
            forall|k: int|
                0 <= k < n ==> match prompt_of(clean(ls[k])) {
                    Some(p) => (#[trigger] prompts@[k]) is Some && prompts@[k].unwrap().0@ == p.0
                        && prompts@[k].unwrap().1 == p.1,
                    None => prompts@[k] is None,
                },
            segment(ls.subrange(0, i as int)) == (nested_view(blocks@), vecs_view(cur@), started),
        decreases n - i,
    {
        proof {
            assert(ls.subrange(0, i + 1).drop_last() =~= ls.subrange(0, i as int));
            assert(ls.subrange(0, i + 1).last() == ls[i as int]);
        }
        match &prompts[i] {
            Some((_, has_cmd)) => {
                if cur.len() > 0 {
                    let ghost pb = blocks@;
                    let mut taken: Vec<Vec<char>> = Vec::new();
                    std::mem::swap(&mut cur, &mut taken);
                    blocks.push(taken);
                    proof {
                        assert(nested_view(blocks@) =~= nested_view(pb).push(vecs_view(taken@)));
                    }
                } else {
                    cur = Vec::new();
                }
                started = started || *has_cmd;
                proof {
                    assert(vecs_view(cur@) =~= Seq::<Seq<char>>::empty());
                }
            },
            None => {
                if started {
                    let ghost pc = cur@;
                    let c = crate::text::slice_vec(cleaned[i].as_slice(), 0, cleaned[i].len());
                    proof {
                        assert(cleaned@[i as int]@.subrange(0, cleaned@[i as int]@.len() as int) =~= cleaned@[i as int]@);
                    }
                    cur.push(c);
                    proof {
                        assert(vecs_view(cur@) =~= vecs_view(pc).push(clean(ls[i as int])));
                    }
                }
            },
        }
        i = i + 1;
    }
    proof {
        assert(ls.subrange(0, n as int) =~= ls);
    }
    if cur.len() > 0 {
        let ghost pb = blocks@;
        let mut taken: Vec<Vec<char>> = Vec::new();
                    std::mem::swap(&mut cur, &mut taken);
        blocks.push(taken);
        proof {
            assert(nested_view(blocks@) =~= nested_view(pb).push(vecs_view(taken@)));
        }
    }
    if !started || blocks.len() == 0 {
        return vec![lit(raw)];
    }
    let mut out: Vec<String> = Vec::new();
    let mut k: usize = 0;
    while k < blocks.len()
        invariant
            k <= blocks@.len(),
            strings_view(out@) == joined_blocks(nested_view(blocks@).subrange(0, k as int)),
        decreases blocks@.len() - k,
    {
        let ghost po = out@;
        let j = join_lines(&blocks[k]);
        out.push(j);
        k = k + 1;
        proof {
            assert(nested_view(blocks@)[k - 1] == vecs_view(blocks@[k - 1]@));
            assert(strings_view(out@) =~= strings_view(po).push(out@.last()@));
            assert(nested_view(blocks@).subrange(0, k as int).drop_last() =~= nested_view(blocks@).subrange(0, k - 1));
            assert(strings_view(out@) =~= joined_blocks(nested_view(blocks@).subrange(0, k as int)));
        }
    }
    proof {
        assert(nested_view(blocks@).subrange(0, k as int) =~= nested_view(blocks@));
    }
    out
}

pub open spec fn vecs_view(v: Seq<Vec<char>>) -> Seq<Seq<char>> {
    v.map_values(|x: Vec<char>| x@)
}

pub open spec fn nested_view(v: Seq<Vec<Vec<char>>>) -> Seq<Seq<Seq<char>>> {
    v.map_values(|x: Vec<Vec<char>>| vecs_view(x@))
}

/// Segmenting changes nothing on text without prompt lines: the whole text
/// is the only block, so parsing it with or without segmentation gives the
/// same records.
pub proof fn lemma_no_prompts_single_block(raw: Seq<char>)
    requires
        forall|i: int| 0 <= i < lines_of(raw).len() ==> (#[trigger] prompt_of(clean(lines_of(raw)[i]))) is None,
    ensures
        transcript_blocks(raw) == seq![raw],
{
    let ls = lines_of(raw);
    if confident(ls) {
        if ls.len() > 0 && prompt_of(clean(ls[0])) is Some {
            assert(prompt_of(clean(ls[0])) is None);
        } else {
            let (i, j) = choose|i: int, j: int|
                0 <= i < j < ls.len() && (#[trigger] prompt_of(clean(ls[i]))) is Some && (#[trigger] prompt_of(
                    clean(ls[j]),
                )) is Some && prompt_of(clean(ls[i])).unwrap().0 == prompt_of(clean(ls[j])).unwrap().0;
            assert(prompt_of(clean(ls[i])) is None);
        }
    }
}

/// The text `strip_ansi_escapes::strip` leaves of `s` (read back as UTF-8).
pub uninterp spec fn ansi_stripped(s: Seq<char>) -> Seq<char>;

/// Relies on `strip_ansi_escapes::strip`: removes terminal escape sequences;
/// the result depends on the text alone.
#[verifier::external_body]
fn strip_ansi(raw: &str) -> (r: String)
    ensures
        r@ == ansi_stripped(raw@),
{
    String::from_utf8_lossy(&strip_ansi_escapes::strip(raw.as_bytes())).into_owned()
}

/// Strips terminal escape sequences, then segments; warns when stripping
/// changed the text.
pub fn preprocess_ios_transcript_with_warnings(raw: &str) -> (r: (Vec<String>, Vec<String>))
    ensures
        strings_view(r.0@) == transcript_blocks(ansi_stripped(raw@)),
        r.1@.len() == (if ansi_stripped(raw@) == raw@ {
            0int
        } else {
            1int
        }),
{
    let cleaned = strip_ansi(raw);
    let mut warnings: Vec<String> = Vec::new();
    if !str_eq(cleaned.as_str(), raw) {
        warnings.push(lit("ANSI escape sequences were stripped from input"));
    }
    let blocks = segment_transcript(cleaned.as_str());
    (blocks, warnings)
}

/// Strips terminal escape sequences from a captured session, then splits it
/// into per-command output blocks (see `segment_transcript`).
pub fn preprocess_ios_transcript(raw: &str) -> (r: Vec<String>)
    ensures
        strings_view(r@) == transcript_blocks(ansi_stripped(raw@)),
{
    let (blocks, _warnings) = preprocess_ios_transcript_with_warnings(raw);
    blocks
}

} // verus!
