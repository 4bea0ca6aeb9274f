//! Naming rules for the spreadsheet mirror of session history: a session key
//! becomes a sheet title with the characters a sheet title refuses replaced,
//! cut to the title length limit.

use vstd::prelude::*;

use crate::text;

verus! {

/// The replacement a sheet title applies to one character.
pub open spec fn sheet_char(c: char) -> char {
    if c == ':' || c == '/' || c == '\\' || c == '*' || c == '?' {
        '_'
    } else if c == '[' {
        '('
    } else if c == ']' {
        ')'
    } else {
        c
    }
}

/// The sheet title for a session key: each character replaced, at most 100
/// kept.
pub open spec fn sanitized_sheet_name(s: Seq<char>) -> Seq<char> {
    s.map_values(|c: char| sheet_char(c)).take(if s.len() <= 100 {
        s.len() as int
    } else {
        100
    })
}

/// Turn a session key into a valid sheet title.
pub fn sanitize_sheet_name(key: &str) -> (r: String)
    ensures
        r@ == sanitized_sheet_name(key@),
        r@.len() <= 100,
{
    let chars = text::str_chars(key);
    let limit = if chars.len() <= 100 {
        chars.len()
    } else {
        100
    };
    let mut v: Vec<char> = Vec::new();
    for i in 0..limit
        invariant
            limit <= chars.len(),
            chars@ == key@,
            v@ == key@.map_values(|c: char| sheet_char(c)).take(i as int),
    {
        let c = chars[i];
        let mapped = if c == ':' || c == '/' || c == '\\' || c == '*' || c == '?' {
            '_'
        } else if c == '[' {
            '('
        } else if c == ']' {
            ')'
        } else {
            c
        };
        v.push(mapped);
        assert(v@ =~= key@.map_values(|ch: char| sheet_char(ch)).take(i + 1));
    }
    assert(v@ =~= sanitized_sheet_name(key@));
    text::chars_to_string(&v)
}

/// Sanitizing is idempotent: a sanitized name passes through unchanged.
pub proof fn lemma_sanitize_sheet_name_idempotent(s: Seq<char>)
    ensures
        sanitized_sheet_name(sanitized_sheet_name(s)) == sanitized_sheet_name(s),
{
    let t = sanitized_sheet_name(s);
    assert(t.len() <= 100);
    assert forall|i: int| 0 <= i < t.len() implies sheet_char(t[i]) == t[i] by {
        assert(t[i] == sheet_char(s[i]));
    }
    assert(sanitized_sheet_name(t) =~= t);
}

} // verus!
