//! Comment stripping and the recursive-descent parser, with the grammar
//! stated as spec functions over characters and positions.
use vstd::prelude::*;

use crate::ast::{exprs_view, lemma_list_view, Expr, Term};
use crate::error::{Fault, SatukitanError};
use crate::lexer::{
    identifier_end, inline_end, is_unicode_space, scan_identifier,
    skip_inline_space, skip_space, space_end, unicode_space,
};
use crate::text::{chars_of, copy_range, string_of_chars};
use crate::value::{boolean_of, boolean_value, numeral_of, numeral_value};

verus! {

/// The text without trailing white space.
pub open spec fn trim_end(l: Seq<char>) -> Seq<char>
    decreases l.len(),
{
    if l.len() > 0 && unicode_space(l.last()) {
        trim_end(l.drop_last())
    } else {
        l
    }
}

/// Whether a `#` at `k` starts a comment: white space or the line's start
/// before it, white space or the line's end after it.
pub open spec fn comment_at(l: Seq<char>, k: int) -> bool {
    &&& 0 <= k < l.len()
    &&& l[k] == '#'
    &&& (k == 0 || unicode_space(l[k - 1]))
    &&& (k + 1 == l.len() || unicode_space(l[k + 1]))
}

/// The first comment start at or after `k`.
pub open spec fn first_comment(l: Seq<char>, k: int) -> Option<int>
    decreases l.len() - k,
{
    if k < 0 || k >= l.len() {
        None
    } else if comment_at(l, k) {
        Some(k)
    } else {
        first_comment(l, k + 1)
    }
}

/// A line without its comment and without trailing white space.
pub open spec fn strip_line(l: Seq<char>) -> Seq<char> {
    match first_comment(l, 0) {
        Some(k) => trim_end(l.subrange(0, k)),
        None => trim_end(l),
    }
}

/// The first newline at or after `k`.
pub open spec fn next_newline(s: Seq<char>, k: int) -> Option<int>
    decreases s.len() - k,
{
    if k < 0 || k >= s.len() {
        None
    } else if s[k] == '\n' {
        Some(k)
    } else {
        next_newline(s, k + 1)
    }
}

/// A line that ended at a newline, without a carriage return before it.
pub open spec fn without_cr(l: Seq<char>) -> Seq<char> {
    if l.len() > 0 && l.last() == '\r' {
        l.drop_last()
    } else {
        l
    }
}

/// The source with each line's comment and trailing white space removed,
/// lines joined by single newlines; a final newline ends the last line and
/// adds no empty one.
pub open spec fn strip_source(s: Seq<char>) -> Seq<char>
    decreases s.len(),
{
    match next_newline(s, 0) {
        None => strip_line(s),
        Some(k) => if k < 0 || k >= s.len() {
            strip_line(s)
        } else {
            let line = strip_line(without_cr(s.subrange(0, k)));
            let rest = s.subrange(k + 1, s.len() as int);
            if rest.len() == 0 {
                line
            } else {
                line + seq!['\n'] + strip_source(rest)
            }
        },
    }
}

fn trim_end_len(l: &Vec<char>, n: usize) -> (r: usize)
    requires
        n <= l.len(),
    ensures
        r <= n,
        l@.subrange(0, r as int) == trim_end(l@.subrange(0, n as int)),
{
    let mut m = n;
    while m > 0 && is_unicode_space(l[m - 1])
        invariant
            m <= n <= l.len(),
            trim_end(l@.subrange(0, m as int)) == trim_end(l@.subrange(0, n as int)),
        decreases m,
    {
        proof {
            assert(l@.subrange(0, m as int).drop_last() =~= l@.subrange(0, m - 1));
        }
        m -= 1;
    }
    m
}

/// Removes the comment and the trailing white space of one line.
pub fn strip_comment_from_line(line: &Vec<char>) -> (r: Vec<char>)
    ensures
        r@ == strip_line(line@),
{
    let n = line.len();
    let mut k: usize = 0;
    let mut cut = n;
    while k < n && cut == n
        invariant
            n == line.len(),
            k <= n,
            cut <= n,
            cut == n ==> first_comment(line@, k as int) == first_comment(line@, 0),
            cut < n ==> first_comment(line@, 0) == Some(cut as int),
        decreases n - k,
    {
        if line[k] == '#' && (k == 0 || is_unicode_space(line[k - 1])) && (k + 1 == n
            || is_unicode_space(line[k + 1])) {
            cut = k;
        }
        k += 1;
    }
    proof {
        if cut == n {
            assert(line@.subrange(0, n as int) =~= line@);
        }
    }
    let m = trim_end_len(line, cut);
    let mut r: Vec<char> = Vec::new();
    let mut i: usize = 0;
    while i < m
        invariant
            m <= line.len(),
            i <= m,
            r@ == line@.subrange(0, i as int),
        decreases m - i,
    {
        r.push(line[i]);
        i += 1;
        proof {
            assert(r@ =~= line@.subrange(0, i as int));
        }
    }
    r
}

/// Removes comments and trailing white space, line by line.
pub fn strip_comments(src: &Vec<char>) -> (r: Vec<char>)
    ensures
        r@ == strip_source(src@),
{
    let n = src.len();
    let mut out: Vec<char> = Vec::new();
    let mut pos: usize = 0;
    proof {
        assert(src@.subrange(0, n as int) =~= src@);
        assert(out@ + strip_source(src@) =~= strip_source(src@));
    }
    loop
        invariant
            n == src.len(),
            pos <= n,
            pos == 0 || pos < n,
            strip_source(src@) == out@ + strip_source(src@.subrange(pos as int, n as int)),
        decreases n - pos,
    {
        let ghost rest = src@.subrange(pos as int, n as int);
        let mut k = pos;
        while k < n && src[k] != '\n'
            invariant
                pos <= k <= n,
                n == src.len(),
                rest == src@.subrange(pos as int, n as int),
                next_newline(rest, (k - pos) as int) == next_newline(rest, 0),
            decreases n - k,
        {
            k += 1;
        }
        let mut line: Vec<char> = Vec::new();
        let mut i = pos;
        let end = if k < n && k > pos && src[k - 1] == '\r' { k - 1 } else { k };
        while i < end
            invariant
                pos <= i <= end <= k <= n,
                n == src.len(),
                line@ == src@.subrange(pos as int, i as int),
            decreases end - i,
        {
            line.push(src[i]);
            i += 1;
            proof {
                assert(line@ =~= src@.subrange(pos as int, i as int));
            }
        }
        let stripped = strip_comment_from_line(&line);
        let ghost before = out@;
        out.append(&mut stripped.clone());
        if k == n {
            proof {
                assert(next_newline(rest, (k - pos) as int) is None);
                assert(line@ =~= rest);
            }
            return out;
        }
        proof {
            assert(rest.subrange(0, k - pos) =~= src@.subrange(pos as int, k as int));
            assert(without_cr(src@.subrange(pos as int, k as int)) =~= line@);
            assert(rest.subrange(k - pos + 1, rest.len() as int) =~= src@.subrange(k + 1, n as int));
        }
        pos = k + 1;
        if pos == n {
            return out;
        }
        out.push('\n');
        proof {
            assert(strip_source(src@) =~= out@ + strip_source(src@.subrange(pos as int, n as int)));
        }
    }
}

/// The outcome of parsing at a position: a result and the position after it;
/// no match, so that an alternative may be tried; or a failure at a position
/// that ends the whole parse.
pub enum Parsed<T> {
    Done(T, int),
    Backtrack,
    Fail(int),
}

/// The position of the closing quote of a string whose text starts at `k`.
/// A backslash escapes the character after it; a string does not span lines.
pub open spec fn closing_quote(s: Seq<char>, k: int) -> Option<int>
    decreases s.len() - k,
{
    if k < 0 || k >= s.len() || s[k] == '\n' {
        None
    } else if s[k] == '"' {
        Some(k)
    } else if s[k] == '\\' {
        if k + 1 < s.len() && s[k + 1] != '\n' {
            closing_quote(s, k + 2)
        } else {
            None
        }
    } else {
        closing_quote(s, k + 1)
    }
}

/// The character that an escape sequence `\c` stands for.
pub open spec fn escaped(c: char) -> Option<char> {
    if c == '"' {
        Some('"')
    } else if c == '\\' {
        Some('\\')
    } else if c == 'n' {
        Some('\n')
    } else if c == 't' {
        Some('\t')
    } else {
        None
    }
}

/// The text of a string literal's contents, escapes resolved.
pub open spec fn unescape(c: Seq<char>) -> Option<Seq<char>>
    decreases c.len(),
{
    if c.len() == 0 {
        Some(Seq::empty())
    } else if c[0] == '\\' {
        if c.len() < 2 {
            None
        } else {
            match (escaped(c[1]), unescape(c.subrange(2, c.len() as int))) {
                (Some(x), Some(rest)) => Some(seq![x] + rest),
                _ => None,
            }
        }
    } else {
        match unescape(c.subrange(1, c.len() as int)) {
            Some(rest) => Some(seq![c[0]] + rest),
            None => None,
        }
    }
}

/// A string literal at `i`, which holds a double quote.
pub open spec fn string_at(s: Seq<char>, i: int) -> Parsed<Term> {
    match closing_quote(s, i + 1) {
        None => Parsed::Backtrack,
        Some(k) => match unescape(s.subrange(i + 1, k)) {
            Some(t) => Parsed::Done(Term::Str(t), k + 1),
            None => Parsed::Backtrack,
        },
    }
}

pub open spec fn prepend<T>(a: T, r: Parsed<Seq<T>>) -> Parsed<Seq<T>> {
    match r {
        Parsed::Done(rest, e) => Parsed::Done(seq![a] + rest, e),
        other => other,
    }
}

/// A symbol followed by its arguments: a call when there is one, else the
/// bare symbol.
pub open spec fn call_outcome(w: Seq<char>, r: Parsed<Seq<Term>>) -> Parsed<Term> {
    match r {
        Parsed::Done(args, q) => if args.len() == 0 {
            Parsed::Done(Term::Symbol(w), q)
        } else {
            Parsed::Done(Term::Call(Box::new(Term::Symbol(w)), args), q)
        },
        Parsed::Backtrack => Parsed::Backtrack,
        Parsed::Fail(x) => Parsed::Fail(x),
    }
}

/// The items of a list, then its closing bracket after white space.
pub open spec fn close_list(s: Seq<char>, r: Parsed<Seq<Term>>, paren: bool) -> Parsed<Term> {
    match r {
        Parsed::Done(xs, q) => {
            let e = space_end(s, q);
            if 0 <= e < s.len() && s[e] == (if paren { ')' } else { ']' }) {
                Parsed::Done(if paren { Term::List(xs) } else { Term::ListLiteral(xs) }, e + 1)
            } else {
                Parsed::Fail(e)
            }
        },
        Parsed::Backtrack => Parsed::Backtrack,
        Parsed::Fail(x) => Parsed::Fail(x),
    }
}

/// An expression at `i`. With `top`, an identifier that is neither a numeral
/// nor a boolean word starts a call or symbol; otherwise it is a symbol.
pub open spec fn expr_at(s: Seq<char>, i: int, top: bool) -> Parsed<Term>
    decreases s.len() - i, 3int,
{
    if i < 0 || i >= s.len() {
        Parsed::Backtrack
    } else if s[i] == '[' {
        list_at(s, i, false)
    } else if s[i] == '(' {
        list_at(s, i, true)
    } else if s[i] == '"' {
        string_at(s, i)
    } else {
        match identifier_end(s, i) {
            None => Parsed::Backtrack,
            Some(e) => {
                let w = s.subrange(i, e);
                if let Some(n) = numeral_value(w) {
                    Parsed::Done(Term::Number(n), e)
                } else if let Some(b) = boolean_value(w) {
                    Parsed::Done(Term::Bool(b), e)
                } else if !top {
                    Parsed::Done(Term::Symbol(w), e)
                } else if e <= i || e > s.len() {
                    Parsed::Backtrack
                } else {
                    call_outcome(w, args_at(s, e))
                }
            },
        }
    }
}

/// A bracketed (`paren` false) or parenthesized list at `i`: arguments
/// separated by white space, then the closing bracket, which must come.
pub open spec fn list_at(s: Seq<char>, i: int, paren: bool) -> Parsed<Term>
    decreases s.len() - i, 2int,
{
    let k = space_end(s, i + 1);
    if i < 0 || k <= i || k > s.len() {
        Parsed::Fail(i)
    } else {
        let items = match expr_at(s, k, false) {
            Parsed::Backtrack => Parsed::Done(Seq::empty(), i + 1),
            Parsed::Fail(x) => Parsed::Fail(x),
            Parsed::Done(a, p) => if p <= i || p > s.len() {
                Parsed::Fail(p)
            } else {
                prepend(a, more_at(s, p))
            },
        };
        close_list(s, items, paren)
    }
}

/// Further list items after `p`, each after white space.
pub open spec fn more_at(s: Seq<char>, p: int) -> Parsed<Seq<Term>>
    decreases s.len() - p, 1int,
{
    let q = space_end(s, p);
    if p < 0 || q <= p || q > s.len() {
        Parsed::Done(Seq::empty(), p)
    } else {
        match expr_at(s, q, false) {
            Parsed::Backtrack => Parsed::Done(Seq::empty(), p),
            Parsed::Fail(x) => Parsed::Fail(x),
            Parsed::Done(a, p2) => if p2 <= p || p2 > s.len() {
                Parsed::Fail(p2)
            } else {
                prepend(a, more_at(s, p2))
            },
        }
    }
}

/// The arguments of a call after position `p`, each after inline white space.
pub open spec fn args_at(s: Seq<char>, p: int) -> Parsed<Seq<Term>>
    decreases s.len() - p, 1int,
{
    let q = inline_end(s, p);
    if p < 0 || q <= p || q > s.len() {
        Parsed::Done(Seq::empty(), p)
    } else {
        match expr_at(s, q, false) {
            Parsed::Backtrack => Parsed::Backtrack,
            Parsed::Fail(x) => Parsed::Fail(x),
            Parsed::Done(a, p2) => if p2 <= p || p2 > s.len() {
                Parsed::Fail(p2)
            } else {
                prepend(a, args_at(s, p2))
            },
        }
    }
}

/// Expressions from `p` on, each followed by white space, until none matches.
pub open spec fn exprs_at(s: Seq<char>, p: int) -> Parsed<Seq<Term>>
    decreases s.len() - p, 4int,
{
    if p < 0 || p > s.len() {
        Parsed::Fail(p)
    } else {
    match expr_at(s, p, true) {
        Parsed::Backtrack => Parsed::Done(Seq::empty(), p),
        Parsed::Fail(x) => Parsed::Fail(x),
        Parsed::Done(t, p2) => {
            let p3 = space_end(s, p2);
            if p3 <= p || p3 > s.len() {
                Parsed::Fail(p3)
            } else {
                prepend(t, exprs_at(s, p3))
            }
        },
    }
    }
}

/// A program in comment-free text: expressions separated by white space, all
/// of the text consumed; or the position where parsing stopped.
pub open spec fn parse_clean(s: Seq<char>) -> Result<Seq<Term>, int> {
    match exprs_at(s, space_end(s, 0)) {
        Parsed::Done(items, e) => if e == s.len() {
            Ok(items)
        } else {
            Err(e)
        },
        Parsed::Fail(x) => Err(x),
        Parsed::Backtrack => Err(space_end(s, 0)),
    }
}

/// The diagnostic snippet for a failure at `pos`: up to 20 characters of the
/// rest, marked as a continuation past the start, or `<end>`.
pub open spec fn snippet_of(s: Seq<char>, pos: int) -> Seq<char> {
    if pos < 0 || pos >= s.len() {
        "<end>"@
    } else {
        let end = if pos + 20 < s.len() { pos + 20 } else { s.len() as int };
        (if pos > 0 { seq!['\u{2026}'] } else { Seq::empty() }) + s.subrange(pos, end)
    }
}

pub open spec fn parse_fault(s: Seq<char>, pos: int) -> Fault {
    Fault::Parse("unexpected token near '"@ + snippet_of(s, pos) + "'"@)
}

/// What parsing a source text gives: its comments stripped, then a program.
pub open spec fn parse_text(src: Seq<char>) -> Result<Seq<Term>, Fault> {
    let s = strip_source(src);
    match parse_clean(s) {
        Ok(items) => Ok(items),
        Err(pos) => Err(parse_fault(s, pos)),
    }
}

pub open spec fn prepend_all<T>(xs: Seq<T>, r: Parsed<Seq<T>>) -> Parsed<Seq<T>> {
    match r {
        Parsed::Done(rest, e) => Parsed::Done(xs + rest, e),
        other => other,
    }
}

/// The outcome of parsing one expression.
pub enum Scan {
    Done(Expr, usize),
    Backtrack,
    Fail(usize),
}

impl Scan {
    pub open spec fn view(&self) -> Parsed<Term> {
        match self {
            Scan::Done(e, p) => Parsed::Done(e@, *p as int),
            Scan::Backtrack => Parsed::Backtrack,
            Scan::Fail(p) => Parsed::Fail(*p as int),
        }
    }
}

/// The position of the closing quote of the string whose text starts at `k`.
fn find_closing_quote(s: &Vec<char>, k: usize) -> (r: Option<usize>)
    requires
        k <= s.len(),
    ensures
        r matches Some(j) ==> closing_quote(s@, k as int) == Some(j as int) && k <= j < s.len(),
        r is None ==> closing_quote(s@, k as int) is None,
{
    let mut j = k;
    while j < s.len()
        invariant
            k <= j,
            closing_quote(s@, j as int) == closing_quote(s@, k as int),
        decreases s.len() - j,
    {
        if s[j] == '\n' {
            return None;
        }
        if s[j] == '"' {
            return Some(j);
        }
        if s[j] == '\\' {
            if j + 1 < s.len() && s[j + 1] != '\n' {
                j += 2;
            } else {
                return None;
            }
        } else {
            j += 1;
        }
    }
    None
}

fn escape_of(c: char) -> (r: Option<char>)
    ensures
        r == escaped(c),
{
    if c == '"' {
        Some('"')
    } else if c == '\\' {
        Some('\\')
    } else if c == 'n' {
        Some('\n')
    } else if c == 't' {
        Some('\t')
    } else {
        None
    }
}

pub open spec fn opt_prepend(xs: Seq<char>, o: Option<Seq<char>>) -> Option<Seq<char>> {
    match o {
        Some(r) => Some(xs + r),
        None => None,
    }
}

/// The text of the string contents `c[from..to]`, escapes resolved; `None`
/// when an escape is not one of `\"`, `\\`, `\n`, `\t`.
pub fn unescape_string(c: &Vec<char>, from: usize, to: usize) -> (r: Option<Vec<char>>)
    requires
        from <= to <= c.len(),
    ensures
        match r {
            Some(t) => unescape(c@.subrange(from as int, to as int)) == Some(t@),
            None => unescape(c@.subrange(from as int, to as int)) is None,
        },
{
    let ghost whole = c@.subrange(from as int, to as int);
    let mut acc: Vec<char> = Vec::new();
    let mut i = from;
    proof {
        assert(acc@ + whole =~= whole);
    }
    while i < to
        invariant
            from <= i <= to <= c.len(),
            whole == c@.subrange(from as int, to as int),
            unescape(whole) == opt_prepend(acc@, unescape(c@.subrange(i as int, to as int))),
        decreases to - i,
    {
        let ghost rest = c@.subrange(i as int, to as int);
        if c[i] == '\\' {
            if i + 1 >= to {
                return None;
            }
            match escape_of(c[i + 1]) {
                None => {
                    return None;
                },
                Some(x) => {
                    proof {
                        assert(rest.subrange(2, rest.len() as int) =~= c@.subrange(i + 2, to as int));
                        assert(rest[1] == c@[i + 1]);
                        match unescape(c@.subrange(i + 2, to as int)) {
                            Some(t) => {
                                assert(acc@ + (seq![x] + t) =~= acc@.push(x) + t);
                            },
                            None => {},
                        }
                    }
                    acc.push(x);
                    i += 2;
                },
            }
        } else {
            proof {
                assert(rest.subrange(1, rest.len() as int) =~= c@.subrange(i + 1, to as int));
                match unescape(c@.subrange(i + 1, to as int)) {
                    Some(t) => {
                        assert(acc@ + (seq![c@[i as int]] + t) =~= acc@.push(c@[i as int]) + t);
                    },
                    None => {},
                }
            }
            acc.push(c[i]);
            i += 1;
        }
    }
    proof {
        assert(c@.subrange(i as int, to as int) =~= Seq::<char>::empty());
        assert(acc@ + Seq::<char>::empty() =~= acc@);
    }
    Some(acc)
}

fn parse_string(s: &Vec<char>, i: usize) -> (r: Scan)
    requires
        i < s.len(),
    ensures
        r@ == string_at(s@, i as int),
        r matches Scan::Done(_, e) ==> i < e <= s.len(),
        !(r is Fail),
{
    match find_closing_quote(s, i + 1) {
        None => Scan::Backtrack,
        Some(k) => match unescape_string(s, i + 1, k) {
            Some(t) => Scan::Done(Expr::String(string_of_chars(&t)), k + 1),
            None => Scan::Backtrack,
        },
    }
}

/// An expression at `i`; with `top`, a call or symbol where an identifier
/// is neither a numeral nor a boolean word.
fn parse_expr(s: &Vec<char>, i: usize, top: bool) -> (r: Scan)
    requires
        i <= s.len(),
    ensures
        r@ == expr_at(s@, i as int, top),
        r matches Scan::Done(_, e) ==> i < e <= s.len(),
    decreases s.len() - i, 3int,
{
    if i >= s.len() {
        return Scan::Backtrack;
    }
    if s[i] == '[' {
        return parse_list(s, i, false);
    }
    if s[i] == '(' {
        return parse_list(s, i, true);
    }
    if s[i] == '"' {
        return parse_string(s, i);
    }
    let e = match scan_identifier(s, i) {
        None => {
            return Scan::Backtrack;
        },
        Some(e) => e,
    };
    let w = copy_range(s, i, e);
    if let Some(n) = numeral_of(&w) {
        return Scan::Done(Expr::Number(n), e);
    }
    if let Some(b) = boolean_of(&w) {
        return Scan::Done(Expr::Bool(b), e);
    }
    let name = string_of_chars(&w);
    if !top {
        return Scan::Done(Expr::Symbol(name), e);
    }
    let ghost v = s@;
    let mut args: Vec<Expr> = Vec::new();
    let mut p = e;
    let ghost total = args_at(v, e as int);
    proof {
        assert(exprs_view(args@) + Seq::<Term>::empty() =~= Seq::<Term>::empty());
        assert(prepend_all(exprs_view(args@), total) == total) by {
            match total {
                Parsed::Done(rest, x) => {
                    assert(exprs_view(args@) + rest =~= rest);
                },
                _ => {},
            }
        }
    }
    proof {
        assert(expr_at(v, i as int, top) == call_outcome(name@, total));
    }
    loop
        invariant
            i < e <= p <= s.len(),
            v == s@,
            expr_at(v, i as int, top) == call_outcome(name@, total),
            total == prepend_all(exprs_view(args@), args_at(v, p as int)),
        ensures
            i < e <= p <= s.len(),
            expr_at(v, i as int, top) == call_outcome(name@, total),
            total == Parsed::Done(exprs_view(args@), p as int),
        decreases s.len() - p,
    {
        let q = skip_inline_space(s, p);
        if q == p {
            proof {
                assert(exprs_view(args@) + Seq::<Term>::empty() =~= exprs_view(args@));
            }
            break;
        }
        match parse_expr(s, q, false) {
            Scan::Backtrack => {
                return Scan::Backtrack;
            },
            Scan::Fail(x) => {
                return Scan::Fail(x);
            },
            Scan::Done(a, p2) => {
                proof {
                    let r2 = args_at(v, p2 as int);
                    match r2 {
                        Parsed::Done(rest, x) => {
                            assert(exprs_view(args@) + (seq![a@] + rest) =~= exprs_view(args@).push(a@) + rest);
                        },
                        _ => {},
                    }
                }
                let ghost before = exprs_view(args@);
                args.push(a);
                proof {
                    assert(exprs_view(args@) =~= before.push(a@));
                }
                p = p2;
            },
        }
    }
    proof {
        assert(exprs_view(args@) + Seq::<Term>::empty() =~= exprs_view(args@));
    }
    if args.len() == 0 {
        Scan::Done(Expr::Symbol(name), p)
    } else {
        let r = Expr::Call { func: Box::new(Expr::Symbol(name)), args };
        proof {
            lemma_list_view(&r);
        }
        Scan::Done(r, p)
    }
}

/// A bracketed or parenthesized list at `i`.
fn parse_list(s: &Vec<char>, i: usize, paren: bool) -> (r: Scan)
    requires
        i < s.len(),
    ensures
        r@ == list_at(s@, i as int, paren),
        r matches Scan::Done(_, e) ==> i < e <= s.len(),
    decreases s.len() - i, 2int,
{
    let ghost v = s@;
    let k = skip_space(s, i + 1);
    let mut items: Vec<Expr> = Vec::new();
    let mut q = i + 1;
    match parse_expr(s, k, false) {
        Scan::Backtrack => {
            proof {
                assert(exprs_view(items@) =~= Seq::<Term>::empty());
            }
        },
        Scan::Fail(x) => {
            return Scan::Fail(x);
        },
        Scan::Done(a, p0) => {
            let ghost total = prepend(a@, more_at(v, p0 as int));
            items.push(a);
            let mut p = p0;
            proof {
                assert(list_at(v, i as int, paren) == close_list(v, total, paren));
                assert(exprs_view(items@) =~= seq![a@]);
            }
            loop
                invariant
                    i < p <= s.len(),
                    v == s@,
                    list_at(v, i as int, paren) == close_list(v, total, paren),
                    total == prepend_all(exprs_view(items@), more_at(v, p as int)),
                ensures
                    i < p <= s.len(),
                    list_at(v, i as int, paren) == close_list(v, total, paren),
                    total == Parsed::Done(exprs_view(items@), p as int),
                decreases s.len() - p,
            {
                let q2 = skip_space(s, p);
                if q2 == p {
                    proof {
                        assert(exprs_view(items@) + Seq::<Term>::empty() =~= exprs_view(items@));
                    }
                    break;
                }
                match parse_expr(s, q2, false) {
                    Scan::Backtrack => {
                        proof {
                            assert(exprs_view(items@) + Seq::<Term>::empty() =~= exprs_view(items@));
                        }
                        break;
                    },
                    Scan::Fail(x) => {
                        return Scan::Fail(x);
                    },
                    Scan::Done(a2, p2) => {
                        proof {
                            match more_at(v, p2 as int) {
                                Parsed::Done(rest, x) => {
                                    assert(exprs_view(items@) + (seq![a2@] + rest) =~= exprs_view(items@).push(a2@) + rest);
                                },
                                _ => {},
                            }
                        }
                        let ghost before = exprs_view(items@);
                        items.push(a2);
                        proof {
                            assert(exprs_view(items@) =~= before.push(a2@));
                        }
                        p = p2;
                    },
                }
            }
            proof {
                assert(exprs_view(items@) + Seq::<Term>::empty() =~= exprs_view(items@));
            }
            q = p;
        },
    }
    let r = skip_space(s, q);
    let closer = if paren { ')' } else { ']' };
    if r < s.len() && s[r] == closer {
        let e = if paren { Expr::List(items) } else { Expr::ListLiteral(items) };
        proof {
            lemma_list_view(&e);
        }
        Scan::Done(e, r + 1)
    } else {
        Scan::Fail(r)
    }
}

/// A program in comment-free text, or the position where parsing stopped.
fn program(s: &Vec<char>) -> (r: Result<Vec<Expr>, usize>)
    ensures
        match r {
            Ok(items) => parse_clean(s@) == Ok::<Seq<Term>, int>(exprs_view(items@)),
            Err(pos) => parse_clean(s@) == Err::<Seq<Term>, int>(pos as int),
        },
{
    let ghost v = s@;
    let p0 = skip_space(s, 0);
    let ghost total = exprs_at(v, p0 as int);
    let mut items: Vec<Expr> = Vec::new();
    let mut p = p0;
    proof {
        match total {
            Parsed::Done(rest, x) => {
                assert(exprs_view(items@) + rest =~= rest);
            },
            _ => {},
        }
    }
    loop
        invariant
            p0 <= p <= s.len(),
            v == s@,
            p0 as int == space_end(v, 0),
            total == exprs_at(v, p0 as int),
            total == prepend_all(exprs_view(items@), exprs_at(v, p as int)),
        ensures
            p0 <= p <= s.len(),
            p0 as int == space_end(v, 0),
            total == exprs_at(v, p0 as int),
            total == Parsed::Done(exprs_view(items@), p as int),
        decreases s.len() - p,
    {
        match parse_expr(s, p, true) {
            Scan::Backtrack => {
                proof {
                    assert(exprs_view(items@) + Seq::<Term>::empty() =~= exprs_view(items@));
                }
                break;
            },
            Scan::Fail(x) => {
                return Err(x);
            },
            Scan::Done(t, p2) => {
                let p3 = skip_space(s, p2);
                proof {
                    match exprs_at(v, p3 as int) {
                        Parsed::Done(rest, x) => {
                            assert(exprs_view(items@) + (seq![t@] + rest) =~= exprs_view(items@).push(t@) + rest);
                        },
                        _ => {},
                    }
                }
                let ghost before = exprs_view(items@);
                items.push(t);
                proof {
                    assert(exprs_view(items@) =~= before.push(t@));
                }
                p = p3;
            },
        }
    }
    if p == s.len() {
        Ok(items)
    } else {
        Err(p)
    }
}

/// The failure for a parse that stopped at `pos` of the comment-free text.
/// The diagnostic snippet for a failure at `pos` of the comment-free text.
pub fn snippet(s: &Vec<char>, pos: usize) -> (r: Vec<char>)
    ensures
        r@ == snippet_of(s@, pos as int),
{
    if pos >= s.len() {
        return chars_of("<end>");
    }
    let mut r: Vec<char> = Vec::new();
    if pos > 0 {
        r.push('\u{2026}');
    }
    let end = if s.len() - pos > 20 { pos + 20 } else { s.len() };
    let mut piece = copy_range(s, pos, end);
    r.append(&mut piece);
    proof {
        assert(r@ =~= snippet_of(s@, pos as int));
    }
    r
}

/// The failure for a parse that stopped at `pos` of the comment-free text.
pub(crate) fn parse_error(s: &Vec<char>, pos: usize) -> (r: SatukitanError)
    ensures
        r@ == parse_fault(s@, pos as int),
{
    let mut m: Vec<char> = chars_of("unexpected token near '");
    let mut piece = snippet(s, pos);
    m.append(&mut piece);
    m.push('\'');
    proof {
        reveal_strlit("'");
        assert(m@ =~= "unexpected token near '"@ + snippet_of(s@, pos as int) + "'"@);
    }
    SatukitanError::Parse(string_of_chars(&m))
}

/// Parses source text into a program: comments are stripped line by line,
/// then the whole text must be a sequence of expressions.
pub fn parse_program(source: &str) -> (r: Result<Vec<Expr>, SatukitanError>)
    ensures
        match r {
            Ok(items) => parse_text(source@) == Ok::<Seq<Term>, Fault>(exprs_view(items@)),
            Err(e) => parse_text(source@) == Err::<Seq<Term>, Fault>(e@),
        },
{
    let chars = chars_of(source);
    let cleaned = strip_comments(&chars);
    match program(&cleaned) {
        Ok(items) => Ok(items),
        Err(pos) => Err(parse_error(&cleaned, pos)),
    }
}

/// A single expression in comment-free text, white space before it and
/// nothing after it.
pub open spec fn parse_one_clean(s: Seq<char>) -> Result<Term, int> {
    let p0 = space_end(s, 0);
    match expr_at(s, p0, true) {
        Parsed::Done(t, e) => if e == s.len() {
            Ok(t)
        } else {
            Err(e)
        },
        Parsed::Backtrack => Err(p0),
        Parsed::Fail(x) => Err(x),
    }
}

/// Parses source text that holds exactly one expression.
pub fn parse_single_expr(source: &str) -> (r: Result<Expr, SatukitanError>)
    ensures
        match r {
            Ok(e) => parse_one_clean(strip_source(source@)) == Ok::<Term, int>(e@),
            Err(e) => exists|pos: int|
                parse_one_clean(strip_source(source@)) == Err::<Term, int>(pos) && e@ == parse_fault(
                    strip_source(source@),
                    pos,
                ),
        },
{
    let chars = chars_of(source);
    let s = strip_comments(&chars);
    let p0 = skip_space(&s, 0);
    match parse_expr(&s, p0, true) {
        Scan::Done(t, e) => {
            if e == s.len() {
                Ok(t)
            } else {
                Err(parse_error(&s, e))
            }
        },
        Scan::Backtrack => Err(parse_error(&s, p0)),
        Scan::Fail(x) => Err(parse_error(&s, x)),
    }
}

} // verus!
