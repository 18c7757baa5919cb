//! Typing of captured text: the lenient integer heuristic.
use vstd::prelude::*;
use crate::text::chars_of;
use crate::types::FieldType;

verus! {

/// A typed scalar of a record.
#[derive(Debug, Clone, PartialEq)]
pub enum Scalar {
    Str(String),
    Int(i64),
}

/// One entry of a record: a scalar, or the ordered captures of a list field.
#[derive(Debug, Clone, PartialEq)]
pub enum FieldValue {
    One(Scalar),
    List(Vec<Scalar>),
}

pub open spec fn is_sep(c: char) -> bool {
    c == ',' || c == '_'
}

pub open spec fn is_digit(c: char) -> bool {
    '0' <= c && c <= '9'
}

/// `s` with every comma and underscore removed.
pub open spec fn strip_seps(s: Seq<char>) -> Seq<char>
    decreases s.len(),
{
    if s.len() == 0 {
        s
    } else if is_sep(s.last()) {
        strip_seps(s.drop_last())
    } else {
        strip_seps(s.drop_last()).push(s.last())
    }
}

/// The value of a string of decimal digits.
pub open spec fn digits_value(s: Seq<char>) -> int
    decreases s.len(),
{
    if s.len() == 0 {
        0
    } else {
        10 * digits_value(s.drop_last()) + (s.last() as int - '0' as int)
    }
}

pub open spec fn all_digits(s: Seq<char>) -> bool {
    forall|i: int| 0 <= i < s.len() ==> is_digit(#[trigger] s[i])
}

pub open spec fn has_sign(s: Seq<char>) -> bool {
    s.len() > 0 && (s[0] == '+' || s[0] == '-')
}

/// The digits that follow an optional leading sign.
pub open spec fn unsigned_part(s: Seq<char>) -> Seq<char> {
    if has_sign(s) {
        s.subrange(1, s.len() as int)
    } else {
        s
    }
}

/// The integer `raw` denotes under the lenient heuristic: drop commas and
/// underscores, allow one leading sign, demand at least one digit and nothing
/// else, and fit in 64 signed bits.
pub open spec fn int_of(raw: Seq<char>) -> Option<int> {
    let s = strip_seps(raw);
    let body = unsigned_part(s);
    let v = if has_sign(s) && s[0] == '-' {
        -digits_value(body)
    } else {
        digits_value(body)
    };
    if body.len() > 0 && all_digits(body) && i64::MIN <= v <= i64::MAX {
        Some(v)
    } else {
        None
    }
}

/// The integer a capture is typed as under `hint`, if any.
pub open spec fn typed_int(raw: Seq<char>, hint: Option<FieldType>) -> Option<int> {
    match hint {
        Some(FieldType::String) => None,
        _ => int_of(raw),
    }
}

/// Whether `v` is the typed form of the capture `raw` under `hint`.
pub open spec fn scalar_of(v: Scalar, raw: Seq<char>, hint: Option<FieldType>) -> bool {
    match typed_int(raw, hint) {
        Some(n) => v == Scalar::Int(n as i64),
        None => v is Str && v->Str_0@ == raw,
    }
}

proof fn lemma_digits_mono(s: Seq<char>, k: int, n: int)
    requires
        0 <= k <= n <= s.len(),
        all_digits(s),
    ensures
        digits_value(s.subrange(0, n)) >= digits_value(s.subrange(0, k)) >= 0,
    decreases n - k,
{
    if n > k {
        lemma_digits_mono(s, k, n - 1);
        assert(s.subrange(0, n).drop_last() =~= s.subrange(0, n - 1));
        assert(is_digit(s[n - 1]));
    } else {
        lemma_digits_nonneg(s, k);
    }
}

proof fn lemma_digits_nonneg(s: Seq<char>, k: int)
    requires
        0 <= k <= s.len(),
        all_digits(s),
    ensures
        digits_value(s.subrange(0, k)) >= 0,
    decreases k,
{
    if k > 0 {
        lemma_digits_nonneg(s, k - 1);
        assert(s.subrange(0, k).drop_last() =~= s.subrange(0, k - 1));
        assert(is_digit(s[k - 1]));
    }
}

/// Copies `v[a..b]` without its separators.
fn strip_seps_range(v: &[char], a: usize, b: usize) -> (r: Vec<char>)
    requires
        a <= b <= v@.len(),
    ensures
        r@ == strip_seps(v@.subrange(a as int, b as int)),
{
    let mut out: Vec<char> = Vec::new();
    let mut i: usize = a;
    while i < b
        invariant
            a <= i <= b <= v@.len(),
            out@ == strip_seps(v@.subrange(a as int, i as int)),
        decreases b - i,
    {
        let c = v[i];
        proof {
            assert(v@.subrange(a as int, i + 1).drop_last() =~= v@.subrange(a as int, i as int));
        }
        if c != ',' && c != '_' {
            out.push(c);
        }
        i = i + 1;
    }
    out
}

const CAP: u64 = 9223372036854775808;

/// Parses `raw` with the lenient integer heuristic.
pub fn convert_int(raw: &str) -> (r: Option<i64>)
    ensures
        match int_of(raw@) {
            Some(n) => r == Some(n as i64),
            None => r is None,
        },
{
    let v = chars_of(raw);
    let s = strip_seps_range(v.as_slice(), 0, v.len());
    let ghost t = s@;
    assert(v@.subrange(0, v@.len() as int) =~= v@);
    assert(t == strip_seps(raw@));
    let signed = s.len() > 0 && (s[0] == '+' || s[0] == '-');
    let neg = signed && s[0] == '-';
    let start: usize = if signed { 1 } else { 0 };
    let ghost body = unsigned_part(t);
    assert(body =~= t.subrange(start as int, t.len() as int));
    if start >= s.len() {
        assert(body.len() == 0);
        return None;
    }
    let mut mag: u64 = 0;
    let mut i: usize = start;
    while i < s.len()
        invariant
            start <= i <= s@.len(),
            s@ == t,
            t == strip_seps(raw@),
            body == unsigned_part(t),
            body == t.subrange(start as int, t.len() as int),
            forall|j: int| 0 <= j < i - start ==> is_digit(#[trigger] body[j]),
            mag as int == digits_value(body.subrange(0, i - start)),
            mag <= CAP,
        decreases s@.len() - i,
    {
        let c = s[i];
        if !('0' <= c && c <= '9') {
            assert(!is_digit(body[i - start]));
            return None;
        }
        let d = (c as u32 - '0' as u32) as u64;
        let ghost k = i - start;
        proof {
            assert(body.subrange(0, k + 1).drop_last() =~= body.subrange(0, k));
        }
        if mag > (CAP - d) / 10 {
            proof {
                assert(body[k] == c);
                let nv = digits_value(body.subrange(0, k + 1));
                assert(nv == 10 * mag + d);
                assert(nv > CAP) by (nonlinear_arith)
                    requires
                        mag > (CAP - d) / 10,
                        nv == 10 * mag + d,
                        d <= 9,
                ;
                if all_digits(body) {
                    lemma_digits_mono(body, k + 1, body.len() as int);
                    assert(body.subrange(0, body.len() as int) =~= body);
                }
            }
            return None;
        }
        mag = mag * 10 + d;
        i = i + 1;
    }
    proof {
        assert(body.subrange(0, body.len() as int) =~= body);
        assert(all_digits(body));
    }
    if neg {
        if mag == CAP {
            Some(i64::MIN)
        } else {
            Some(-(mag as i64))
        }
    } else {
        if mag >= CAP {
            assert(!has_sign(t) || t[0] != '-');
            assert(digits_value(body) >= CAP);
            None
        } else {
            Some(mag as i64)
        }
    }
}

/// Types the capture `raw`: the heuristic integer unless `hint` is `String`
/// or the heuristic rejects the text, else the text itself.
pub fn convert_scalar(raw: &str, hint: Option<FieldType>) -> (r: Scalar)
    ensures
        scalar_of(r, raw@, hint),
{
    match hint {
        Some(FieldType::String) => Scalar::Str(crate::text::lit(raw)),
        _ => match convert_int(raw) {
            Some(n) => Scalar::Int(n),
            None => Scalar::Str(crate::text::lit(raw)),
        },
    }
}

} // verus!
