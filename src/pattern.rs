//! Compiled rule regexes, through the `regex` crate.
use vstd::prelude::*;
use vstd::utf8::{encode_utf8, is_char_boundary};

verus! {

#[verifier::external_type_specification]
#[verifier::external_body]
pub struct ExRegex(regex::Regex);

/// Whether `regex::Regex::new` accepts the pattern.
pub uninterp spec fn regex_ok(p: Seq<char>) -> bool;

/// The capture groups of a pattern, in order: the whole match first, then one
/// per group, with the group's name if it has one.
pub uninterp spec fn regex_groups(p: Seq<char>) -> Seq<Option<Seq<char>>>;

/// The leftmost-first match of a pattern in a haystack: per capture group,
/// the byte span and the text it matched, or `None` if it did not take part.
pub uninterp spec fn regex_search(p: Seq<char>, h: Seq<char>) -> Option<
    Seq<Option<(nat, nat, Seq<char>)>>,
>;

/// A regular expression compiled from its source text.
#[derive(Debug)]
pub struct Pattern {
    source: String,
    re: regex::Regex,
}

/// The bytes `start..end` of a haystack and the text they hold.
#[derive(Debug, Clone, PartialEq)]
pub struct Span {
    pub start: usize,
    pub end: usize,
    pub text: String,
}

pub open spec fn span_view(s: Option<Span>) -> Option<(nat, nat, Seq<char>)> {
    match s {
        Some(x) => Some((x.start as nat, x.end as nat, x.text@)),
        None => None,
    }
}

pub open spec fn spans_view(v: Seq<Option<Span>>) -> Seq<Option<(nat, nat, Seq<char>)>> {
    v.map_values(|s: Option<Span>| span_view(s))
}

pub open spec fn names_view(v: Seq<Option<String>>) -> Seq<Option<Seq<char>>> {
    v.map_values(
        |s: Option<String>|
            match s {
                Some(x) => Some(x@),
                None => None,
            },
    )
}

impl View for Pattern {
    type V = Seq<char>;

    closed spec fn view(&self) -> Seq<char> {
        self.source@
    }
}

/// Relies on `regex::Regex::new`: it either compiles the pattern or reports
/// why not; which of the two depends on the pattern alone.
#[verifier::external_body]
fn regex_new(p: &str) -> (r: Result<regex::Regex, String>)
    ensures
        r is Ok == regex_ok(p@),
{
    regex::Regex::new(p).map_err(|e| e.to_string())
}

impl Pattern {
    /// Compiles `p`; the error text explains a rejected pattern.
    pub fn compile(p: &str) -> (r: Result<Pattern, String>)
        ensures
            r is Ok == regex_ok(p@),
            r is Ok ==> r.unwrap()@ == p@,
    {
        match regex_new(p) {
            Ok(re) => Ok(Pattern { source: crate::text::lit(p), re }),
            Err(e) => Err(e),
        }
    }

    /// The source text.
    pub fn as_str(&self) -> (r: &str)
        ensures
            r@ == self@,
    {
        self.source.as_str()
    }

    /// The capture groups, as `regex_groups` describes them.
    pub fn group_names(&self) -> (r: Vec<Option<String>>)
        ensures
            names_view(r@) == regex_groups(self@),
    {
        regex_names(self)
    }

    /// Searches `h`, as `regex_search` describes it.
    pub fn captures(&self, h: &str) -> (r: Option<Vec<Option<Span>>>)
        ensures
            match regex_search(self@, h@) {
                Some(g) => r is Some && spans_view(r.unwrap()@) == g,
                None => r is None,
            },
            r is Some ==> r.unwrap()@.len() == regex_groups(self@).len(),
            r is Some ==> forall|i: int|
                0 <= i < r.unwrap()@.len() && (#[trigger] r.unwrap()@[i]) is Some ==> {
                    let s = r.unwrap()@[i].unwrap();
                    &&& s.start <= s.end <= encode_utf8(h@).len()
                    &&& is_char_boundary(encode_utf8(h@), s.start as int) && is_char_boundary(encode_utf8(h@), s.end as int)
                    &&& encode_utf8(s.text@) == encode_utf8(h@).subrange(s.start as int, s.end as int)
                },
    {
        regex_captures(self, h)
    }
}

/// Relies on `regex::Regex::capture_names`: one entry per capture group, in
/// group order, named or not (`p.re` was compiled from `p.source`).
#[verifier::external_body]
fn regex_names(p: &Pattern) -> (r: Vec<Option<String>>)
    ensures
        names_view(r@) == regex_groups(p@),
{
    p.re.capture_names().map(|n| n.map(|s| s.to_string())).collect()
}

/// Relies on `regex::Regex::captures` and `Captures::iter`: the leftmost-first
/// match, with one entry per capture group (as many as `capture_names`
/// yields); each participating group's `start <= end` are byte offsets into
/// `h` on character boundaries (`Match::start`/`end` document this), and its
/// text is `&h[start..end]` (`p.re` was compiled from
/// `p.source`).
#[verifier::external_body]
fn regex_captures(p: &Pattern, h: &str) -> (r: Option<Vec<Option<Span>>>)
    ensures
        match regex_search(p@, h@) {
            Some(g) => r is Some && spans_view(r.unwrap()@) == g,
            None => r is None,
        },
        r is Some ==> r.unwrap()@.len() == regex_groups(p@).len(),
        r is Some ==> forall|i: int|
            0 <= i < r.unwrap()@.len() && (#[trigger] r.unwrap()@[i]) is Some ==> {
                let s = r.unwrap()@[i].unwrap();
                &&& s.start <= s.end <= encode_utf8(h@).len()
                &&& is_char_boundary(encode_utf8(h@), s.start as int) && is_char_boundary(encode_utf8(h@), s.end as int)
                &&& encode_utf8(s.text@) == encode_utf8(h@).subrange(s.start as int, s.end as int)
            },
{
    p.re.captures(h).map(
        |c| c.iter().map(|m| m.map(|m| Span { start: m.start(), end: m.end(), text: m.as_str().to_string() })).collect(),
    )
}

} // verus!
