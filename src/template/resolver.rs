//! Validation of template names before any lookup on disk.
use vstd::prelude::*;
use crate::text::{cat, chars_of, contains_chars, contains_spec, lit};

verus! {

pub open spec fn name_char(c: char) -> bool {
    ('a' <= c && c <= 'z') || ('A' <= c && c <= 'Z') || ('0' <= c && c <= '9') || c == '_' || c == '-'
        || c == '.' || c == '/'
}

/// Whether `s` may name a template: not empty, not absolute, without `..`,
/// without backslashes, and made of letters, digits, `_`, `-`, `.` and `/`.
pub open spec fn name_ok(s: Seq<char>) -> bool {
    &&& s.len() > 0
    &&& s[0] != '/' && s[0] != '\\'
    &&& !contains_spec(s, seq!['.', '.'])
    &&& forall|i: int| 0 <= i < s.len() ==> name_char(#[trigger] s[i])
}

/// Accepts a template name that cannot reach outside the template
/// directories; the error says which rule the name breaks.
pub fn validate_template_name(name: &str) -> (r: Result<(), String>)
    ensures
        r is Ok <==> name_ok(name@),
{
    let s = chars_of(name);
    if s.len() == 0 {
        return Err(lit("Template name cannot be empty"));
    }
    if s[0] == '/' || s[0] == '\\' {
        return Err(cat(&["Invalid template name '", name, "': absolute paths not allowed"]));
    }
    let dots: Vec<char> = vec!['.', '.'];
    proof {
        assert(dots@ =~= seq!['.', '.']);
    }
    if contains_chars(s.as_slice(), dots.as_slice()) {
        return Err(cat(&["Invalid template name '", name, "': parent directory references (..) not allowed"]));
    }
    let mut i: usize = 0;
    while i < s.len()
        invariant
            i <= s@.len(),
            s@ == name@,
            forall|j: int| 0 <= j < i ==> name_char(#[trigger] s@[j]),
        decreases s@.len() - i,
    {
        let c = s[i];
        if c == '\\' {
            assert(!name_char(s@[i as int]));
            return Err(cat(&["Invalid template name '", name, "': backslash not allowed"]));
        }
        if !(('a' <= c && c <= 'z') || ('A' <= c && c <= 'Z') || ('0' <= c && c <= '9') || c == '_' || c == '-'
            || c == '.' || c == '/') {
            assert(!name_char(s@[i as int]));
            return Err(
                cat(&["Invalid template name '", name, "': only alphanumeric, underscore, hyphen, dot, and forward slash allowed"]),
            );
        }
        i = i + 1;
    }
    Ok(())
}

} // verus!
