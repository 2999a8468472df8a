//! Character classes, and scanning of white space and identifiers.
use vstd::prelude::*;

use crate::error::SatukitanError;
use crate::parser::{parse_error, parse_fault};
use crate::text::{chars_of, copy_range, string_of_chars};

verus! {

/// Inline whitespace: space and tab. A newline is not inline whitespace.
pub open spec fn inline_space(c: char) -> bool {
    c == ' ' || c == '\t'
}

/// Whitespace between expressions: space, tab, carriage return, newline.
pub open spec fn multispace(c: char) -> bool {
    c == ' ' || c == '\t' || c == '\r' || c == '\n'
}

pub open spec fn ascii_letter(c: char) -> bool {
    ('a' <= c && c <= 'z') || ('A' <= c && c <= 'Z')
}

pub open spec fn ascii_digit(c: char) -> bool {
    '0' <= c && c <= '9'
}

/// The characters that may start an identifier.
pub open spec fn identifier_start(c: char) -> bool {
    ascii_letter(c) || c == '_' || c == '#'
}

/// The characters that may continue an identifier.
pub open spec fn identifier_continue(c: char) -> bool {
    ascii_letter(c) || ascii_digit(c) || c == '_' || c == '-'
}

/// Unicode white space, as `char::is_whitespace` classifies it.
pub open spec fn unicode_space(c: char) -> bool {
    ('\u{9}' <= c && c <= '\u{d}') || c == ' ' || c == '\u{85}' || c == '\u{a0}' || c
        == '\u{1680}' || ('\u{2000}' <= c && c <= '\u{200a}') || c == '\u{2028}' || c
        == '\u{2029}' || c == '\u{202f}' || c == '\u{205f}' || c == '\u{3000}'
}

pub fn is_inline_space(c: char) -> (r: bool)
    ensures
        r == inline_space(c),
{
    c == ' ' || c == '\t'
}

pub fn is_multispace(c: char) -> (r: bool)
    ensures
        r == multispace(c),
{
    c == ' ' || c == '\t' || c == '\r' || c == '\n'
}

pub fn is_identifier_start(c: char) -> (r: bool)
    ensures
        r == identifier_start(c),
{
    ('a' <= c && c <= 'z') || ('A' <= c && c <= 'Z') || c == '_' || c == '#'
}

pub fn is_identifier_continue(c: char) -> (r: bool)
    ensures
        r == identifier_continue(c),
{
    ('a' <= c && c <= 'z') || ('A' <= c && c <= 'Z') || ('0' <= c && c <= '9') || c == '_' || c
        == '-'
}

pub fn is_unicode_space(c: char) -> (r: bool)
    ensures
        r == unicode_space(c),
{
    ('\u{9}' <= c && c <= '\u{d}') || c == ' ' || c == '\u{85}' || c == '\u{a0}' || c
        == '\u{1680}' || ('\u{2000}' <= c && c <= '\u{200a}') || c == '\u{2028}' || c
        == '\u{2029}' || c == '\u{202f}' || c == '\u{205f}' || c == '\u{3000}'
}

/// The end of the longest run, from `i`, of characters that `p` accepts.
pub open spec fn run_end(s: Seq<char>, i: int, p: spec_fn(char) -> bool) -> int
    decreases s.len() - i,
{
    if 0 <= i < s.len() && p(s[i]) {
        run_end(s, i + 1, p)
    } else {
        i
    }
}

pub open spec fn inline_end(s: Seq<char>, i: int) -> int {
    run_end(s, i, |c: char| inline_space(c))
}

pub open spec fn space_end(s: Seq<char>, i: int) -> int {
    run_end(s, i, |c: char| multispace(c))
}

/// The end of the identifier that starts at `i`, if one does.
pub open spec fn identifier_end(s: Seq<char>, i: int) -> Option<int> {
    if 0 <= i < s.len() && identifier_start(s[i]) {
        Some(run_end(s, i + 1, |c: char| identifier_continue(c)))
    } else {
        None
    }
}

/// The end of the run of inline whitespace at `i`.
pub fn skip_inline_space(s: &Vec<char>, i: usize) -> (r: usize)
    requires
        i <= s.len(),
    ensures
        r == inline_end(s@, i as int),
        i <= r <= s.len(),
{
    let mut j = i;
    while j < s.len() && is_inline_space(s[j])
        invariant
            i <= j <= s.len(),
            inline_end(s@, j as int) == inline_end(s@, i as int),
        decreases s.len() - j,
    {
        j += 1;
    }
    j
}

/// The end of the run of whitespace at `i`.
pub fn skip_space(s: &Vec<char>, i: usize) -> (r: usize)
    requires
        i <= s.len(),
    ensures
        r == space_end(s@, i as int),
        i <= r <= s.len(),
{
    let mut j = i;
    while j < s.len() && is_multispace(s[j])
        invariant
            i <= j <= s.len(),
            space_end(s@, j as int) == space_end(s@, i as int),
        decreases s.len() - j,
    {
        j += 1;
    }
    j
}

/// The end of the identifier that starts at `i`, if one does.
pub fn scan_identifier(s: &Vec<char>, i: usize) -> (r: Option<usize>)
    requires
        i <= s.len(),
    ensures
        r matches Some(e) ==> identifier_end(s@, i as int) == Some(e as int) && i < e <= s.len(),
        r is None ==> identifier_end(s@, i as int) is None,
{
    if i >= s.len() || !is_identifier_start(s[i]) {
        return None;
    }
    let mut j = i + 1;
    while j < s.len() && is_identifier_continue(s[j])
        invariant
            i < j <= s.len(),
            run_end(s@, j as int, |c: char| identifier_continue(c)) == run_end(
                s@,
                i + 1,
                |c: char| identifier_continue(c),
            ),
        decreases s.len() - j,
    {
        j += 1;
    }
    Some(j)
}

/// Splits `input` at `e` into the rest and the matched text.
fn split_at(s: &Vec<char>, e: usize) -> (r: (String, String))
    requires
        e <= s.len(),
    ensures
        r.0@ == s@.subrange(e as int, s.len() as int),
        r.1@ == s@.subrange(0, e as int),
{
    let matched = copy_range(s, 0, e);
    let rest = copy_range(s, e, s.len());
    (string_of_chars(&rest), string_of_chars(&matched))
}

/// The inline white space at the start of `input`, possibly none, as the
/// rest and the matched text.
pub fn inline_space0(input: &str) -> (r: (String, String))
    ensures
        r.1@ == input@.subrange(0, inline_end(input@, 0)),
        r.0@ == input@.subrange(inline_end(input@, 0), input@.len() as int),
{
    let s = chars_of(input);
    let e = skip_inline_space(&s, 0);
    split_at(&s, e)
}

/// At least one character of inline white space at the start of `input`, as
/// the rest and the matched text; a failure when there is none.
pub fn inline_space1(input: &str) -> (r: Result<(String, String), SatukitanError>)
    ensures
        r is Ok <==> inline_end(input@, 0) > 0,
        r matches Ok(p) ==> p.1@ == input@.subrange(0, inline_end(input@, 0)) && p.0@
            == input@.subrange(inline_end(input@, 0), input@.len() as int),
        r matches Err(e) ==> e@ == parse_fault(input@, 0),
{
    let s = chars_of(input);
    let e = skip_inline_space(&s, 0);
    if e == 0 {
        return Err(parse_error(&s, 0));
    }
    Ok(split_at(&s, e))
}

/// The identifier at the start of `input`, as the rest and the matched
/// text; a failure when `input` does not start with one.
pub fn identifier(input: &str) -> (r: Result<(String, String), SatukitanError>)
    ensures
        r is Ok <==> identifier_end(input@, 0) is Some,
        r matches Ok(p) ==> p.1@ == input@.subrange(0, identifier_end(input@, 0)->Some_0) && p.0@
            == input@.subrange(identifier_end(input@, 0)->Some_0, input@.len() as int),
        r matches Err(e) ==> e@ == parse_fault(input@, 0),
{
    let s = chars_of(input);
    match scan_identifier(&s, 0) {
        Some(e) => Ok(split_at(&s, e)),
        None => Err(parse_error(&s, 0)),
    }
}

} // verus!
