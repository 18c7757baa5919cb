//! Descriptive metadata of a template (description, version, authors).
use vstd::prelude::*;
use crate::template::doc::{parse_toml, parse_yaml, toml_doc, yaml_doc, DocNode};
use crate::text::{chars_of, lit, slice_vec, str_eq, string_of, trim_bounds, trim_spec};
use crate::types::TemplateFormat;

verus! {

/// What a template says about itself.
#[derive(Debug, Clone, PartialEq)]
pub struct TemplateMetadata {
    pub description: String,
    pub compatibility: String,
    pub version: String,
    pub author: String,
    pub maintainer: Option<String>,
}

/// The metadata as text: description, compatibility, version, author, maintainer.
pub type MetaView = (Seq<char>, Seq<char>, Seq<char>, Seq<char>, Option<Seq<char>>);

pub open spec fn meta_view(m: TemplateMetadata) -> MetaView {
    (m.description@, m.compatibility@, m.version@, m.author@, match m.maintainer {
        Some(s) => Some(s@),
        None => None,
    })
}

pub open spec fn default_view() -> MetaView {
    ("No description available"@, "Unknown"@, "1.0.0"@, "Unknown"@, None)
}

/// The metadata of a template that gives none.
pub fn default_metadata() -> (r: TemplateMetadata)
    ensures
        meta_view(r) == default_view(),
{
    TemplateMetadata {
        description: lit("No description available"),
        compatibility: lit("Unknown"),
        version: lit("1.0.0"),
        author: lit("Unknown"),
        maintainer: None,
    }
}

/// The value of the first entry of a table under the string key `k`.
pub open spec fn table_get(es: Seq<(DocNode, DocNode)>, k: Seq<char>) -> Option<DocNode>
    decreases es.len(),
{
    if es.len() == 0 {
        None
    } else if es[0].0 is Str && es[0].0->Str_0@ == k {
        Some(es[0].1)
    } else {
        table_get(es.subrange(1, es.len() as int), k)
    }
}

pub open spec fn str_at(es: Seq<(DocNode, DocNode)>, k: Seq<char>) -> Option<Seq<char>> {
    match table_get(es, k) {
        Some(DocNode::Str(s)) => Some(s@),
        _ => None,
    }
}

/// The `metadata` table of a document, if it has a complete one: the four
/// text entries present, and `maintainer` absent, null or text.
pub open spec fn meta_of_tree(root: DocNode) -> Option<MetaView> {
    match root {
        DocNode::Table(es) => match table_get(es@, "metadata"@) {
            Some(DocNode::Table(ms)) => {
                let m = ms@;
                let maint_ok = match table_get(m, "maintainer"@) {
                    None => true,
                    Some(DocNode::Null) => true,
                    Some(DocNode::Str(_)) => true,
                    _ => false,
                };
                if str_at(m, "description"@) is Some && str_at(m, "compatibility"@) is Some
                    && str_at(m, "version"@) is Some && str_at(m, "author"@) is Some && maint_ok {
                    Some(
                        (
                            str_at(m, "description"@).unwrap(),
                            str_at(m, "compatibility"@).unwrap(),
                            str_at(m, "version"@).unwrap(),
                            str_at(m, "author"@).unwrap(),
                            str_at(m, "maintainer"@),
                        ),
                    )
                } else {
                    None
                }
            },
            _ => None,
        },
        _ => None,
    }
}

pub(crate) fn get<'a>(es: &'a Vec<(DocNode, DocNode)>, k: &str) -> (r: Option<&'a DocNode>)
    ensures
        match table_get(es@, k@) {
            Some(n) => r is Some && *r.unwrap() == n,
            None => r is None,
        },
{
    let mut i: usize = 0;
    assert(es@.subrange(0, es@.len() as int) =~= es@);
    while i < es.len()
        invariant
            i <= es@.len(),
            table_get(es@, k@) == table_get(es@.subrange(i as int, es@.len() as int), k@),
        decreases es@.len() - i,
    {
        proof {
            let t = es@.subrange(i as int, es@.len() as int);
            assert(t.subrange(1, t.len() as int) =~= es@.subrange(i + 1, es@.len() as int));
            assert(t[0] == es@[i as int]);
        }
        match &es[i].0 {
            DocNode::Str(s) => {
                if str_eq(s.as_str(), k) {
                    return Some(&es[i].1);
                }
            },
            _ => {},
        }
        i = i + 1;
    }
    None
}

fn get_str(es: &Vec<(DocNode, DocNode)>, k: &str) -> (r: Option<String>)
    ensures
        match str_at(es@, k@) {
            Some(s) => r is Some && r.unwrap()@ == s,
            None => r is None,
        },
{
    match get(es, k) {
        Some(DocNode::Str(s)) => Some(s.clone()),
        _ => None,
    }
}

/// The metadata of a document tree, or the defaults.
pub fn from_tree(root: &DocNode) -> (r: TemplateMetadata)
    ensures
        meta_view(r) == match meta_of_tree(*root) {
            Some(v) => v,
            None => default_view(),
        },
{
    let es = match root {
        DocNode::Table(es) => es,
        _ => {
            return default_metadata();
        },
    };
    let ms = match get(es, "metadata") {
        Some(DocNode::Table(ms)) => ms,
        _ => {
            return default_metadata();
        },
    };
    let maint_ok = match get(ms, "maintainer") {
        None => true,
        Some(DocNode::Null) => true,
        Some(DocNode::Str(_)) => true,
        _ => false,
    };
    let d = get_str(ms, "description");
    let c = get_str(ms, "compatibility");
    let v = get_str(ms, "version");
    let a = get_str(ms, "author");
    match (d, c, v, a) {
        (Some(d), Some(c), Some(v), Some(a)) => {
            if !maint_ok {
                return default_metadata();
            }
            TemplateMetadata { description: d, compatibility: c, version: v, author: a, maintainer: get_str(ms, "maintainer") }
        },
        _ => default_metadata(),
    }
}

/// The metadata of a template's text. Never fails: what cannot be read
/// yields the defaults.
pub fn extract_metadata(content: &str, format: TemplateFormat) -> (r: TemplateMetadata)
    ensures
        format == TemplateFormat::Auto ==> meta_view(r) == default_view(),
        format == TemplateFormat::Yaml ==> meta_view(r) == match yaml_doc(content@) {
            Some(t) => match meta_of_tree(t) {
                Some(v) => v,
                None => default_view(),
            },
            None => default_view(),
        },
        format == TemplateFormat::Textfsm ==> meta_view(r) == header_meta(
            crate::fsm::lines_of(content@),
            0,
            default_view(),
        ),
        format == TemplateFormat::Toml ==> meta_view(r) == match toml_doc(content@) {
            Some(t) => match meta_of_tree(t) {
                Some(v) => v,
                None => default_view(),
            },
            None => default_view(),
        },
{
    match format {
        TemplateFormat::Yaml => match parse_yaml(content) {
            Ok(t) => from_tree(&t),
            Err(_) => default_metadata(),
        },
        TemplateFormat::Toml => match parse_toml(content) {
            Ok(t) => from_tree(&t),
            Err(_) => default_metadata(),
        },
        TemplateFormat::Textfsm => extract_from_textfsm_comments(content),
        TemplateFormat::Auto => default_metadata(),
    }
}

pub open spec fn ascii_lower(c: char) -> char {
    if 'A' <= c && c <= 'Z' {
        ((c as u32) + 32) as char
    } else {
        c
    }
}

/// Whether `k` is the lower-case word `w` up to ASCII case.
pub open spec fn key_is(k: Seq<char>, w: Seq<char>) -> bool {
    k.len() == w.len() && forall|i: int| 0 <= i < k.len() ==> ascii_lower(#[trigger] k[i]) == w[i]
}

/// The number of `#` characters at the start of `t`.
pub open spec fn hash_run(t: Seq<char>, i: int) -> nat
    decreases t.len() - i,
{
    if 0 <= i < t.len() && t[i] == '#' {
        1 + hash_run(t, i + 1)
    } else {
        0
    }
}

/// The metadata after one comment line `t` (already trimmed, starting with
/// `#`): `Key: Value` sets the key it names, anything else changes nothing.
pub open spec fn apply_comment(m: MetaView, t: Seq<char>) -> MetaView {
    let rest = t.subrange(hash_run(t, 0) as int, t.len() as int);
    let c = crate::template::loader::first_index(rest, ':');
    if c < 0 {
        m
    } else {
        let key = trim_spec(rest.subrange(0, c));
        let value = trim_spec(rest.subrange(c + 1, rest.len() as int));
        if key_is(key, "description"@) {
            (value, m.1, m.2, m.3, m.4)
        } else if key_is(key, "compatibility"@) {
            (m.0, value, m.2, m.3, m.4)
        } else if key_is(key, "version"@) {
            (m.0, m.1, value, m.3, m.4)
        } else if key_is(key, "author"@) {
            (m.0, m.1, m.2, value, m.4)
        } else if key_is(key, "maintainer"@) {
            (m.0, m.1, m.2, m.3, Some(value))
        } else {
            m
        }
    }
}

/// The metadata read from the comment lines at the top of `ls`, from line
/// `i` on, starting from `m`.
pub open spec fn header_meta(ls: Seq<Seq<char>>, i: int, m: MetaView) -> MetaView
    decreases ls.len() - i,
{
    if i < 0 || i >= ls.len() {
        m
    } else {
        let t = trim_spec(ls[i]);
        if t.len() == 0 || t[0] != '#' {
            m
        } else {
            header_meta(ls, i + 1, apply_comment(m, t))
        }
    }
}

/// Whether `a` is the lower-case ASCII word `w` up to ASCII case.
fn eq_ignore_case(a: &Vec<char>, w: &str) -> (r: bool)
    ensures
        r == key_is(a@, w@),
{
    let b = chars_of(w);
    if a.len() != b.len() {
        return false;
    }
    let mut i: usize = 0;
    while i < a.len()
        invariant
            a@.len() == b@.len(),
            b@ == w@,
            i <= a@.len(),
            forall|j: int| 0 <= j < i ==> ascii_lower(#[trigger] a@[j]) == b@[j],
        decreases a@.len() - i,
    {
        let c = a[i];
        let lc = if 'A' <= c && c <= 'Z' {
            ((c as u32) + 32) as u8 as char
        } else {
            c
        };
        assert(lc == ascii_lower(c));
        if lc != b[i] {
            return false;
        }
        i = i + 1;
    }
    true
}

/// Reads `# Key: Value` lines at the top of a legacy template (keys are
/// matched without regard to ASCII case); stops at the first line that is
/// not a comment.
fn extract_from_textfsm_comments(content: &str) -> (r: TemplateMetadata)
    ensures
        meta_view(r) == header_meta(crate::fsm::lines_of(content@), 0, default_view()),
{
    let mut m = default_metadata();
    let lines = crate::fsm::split_lines(content);
    let ghost ls = crate::fsm::lines_of(content@);
    let mut i: usize = 0;
    while i < lines.len()
        invariant
            i <= lines@.len(),
            crate::fsm::strings_view(lines@) == ls,
            ls == crate::fsm::lines_of(content@),
            header_meta(ls, 0, default_view()) == header_meta(ls, i as int, meta_view(m)),
        decreases lines@.len() - i,
    {
        let l = chars_of(lines[i].as_str());
        let (a, b) = trim_bounds(l.as_slice());
        let t = slice_vec(l.as_slice(), a, b);
        proof {
            assert(ls[i as int] == l@);
            assert(t@ == trim_spec(ls[i as int]));
        }
        if t.len() == 0 || t[0] != '#' {
            return m;
        }
        let tn = t.len();
        let mut s: usize = 0;
        while s < tn && t[s] == '#'
            invariant
                tn == t@.len(),
                s <= tn,
                hash_run(t@, 0) == s + hash_run(t@, s as int),
            decreases tn - s,
        {
            s = s + 1;
        }
        let rest = slice_vec(t.as_slice(), s, tn);
        proof {
            assert(hash_run(t@, s as int) == 0);
        }
        let ghost mv = meta_view(m);
        match crate::template::loader::index_of(&rest, ':') {
            Some(colon) => {
                let k0 = slice_vec(rest.as_slice(), 0, colon);
                let v0 = slice_vec(rest.as_slice(), colon + 1, rest.len());
                let (ka, kb) = trim_bounds(k0.as_slice());
                let (va, vb) = trim_bounds(v0.as_slice());
                let key = slice_vec(k0.as_slice(), ka, kb);
                let value = string_of(slice_vec(v0.as_slice(), va, vb).as_slice());
                if eq_ignore_case(&key, "description") {
                    m.description = value;
                } else if eq_ignore_case(&key, "compatibility") {
                    m.compatibility = value;
                } else if eq_ignore_case(&key, "version") {
                    m.version = value;
                } else if eq_ignore_case(&key, "author") {
                    m.author = value;
                } else if eq_ignore_case(&key, "maintainer") {
                    m.maintainer = Some(value);
                }
            },
            None => {},
        }
        proof {
            assert(meta_view(m) == apply_comment(mv, t@));
        }
        i = i + 1;
    }
    m
}

} // verus!
