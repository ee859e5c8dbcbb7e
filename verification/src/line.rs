//! The line parser: one line of input against the grammar.
//!
//! A line is blank, a comment, a section header `[identifier]`, or a pair
//! `identifier = value` with an optional trailing inline comment.  The
//! spec functions here denote exactly which lines match and what they
//! match to; the executable parser is proved to agree with them.

use vstd::prelude::*;

use crate::chars::{
    comment_from, find_from, first_non_ws, ident_end, is_comment_start, is_ident_start,
    comment_char, find_char, find_comment, ident_start_char, scan_ident, skip_ws,
};
use crate::error::{LineFail, SyntaxErrorKind};
use crate::value::{TokenModel, ValueToken};

verus! {

/// The mathematical model of one parsed line.
pub ghost enum LineModel {
    Blank,
    Comment,
    SectionHeader(Seq<char>),
    Pair(Seq<char>, TokenModel),
}

/// One parsed line.
#[derive(Debug, Clone, PartialEq)]
pub enum LineNode {
    /// A line holding only whitespace.
    Blank,
    /// A line whose first non-whitespace character starts a comment.
    Comment,
    /// A section header; the text is the identifier between the brackets.
    SectionHeader(String),
    /// A key-value pair: the key identifier and the matched value token.
    Pair(String, ValueToken),
}

impl View for LineNode {
    type V = LineModel;

    open spec fn view(&self) -> LineModel {
        match self {
            LineNode::Blank => LineModel::Blank,
            LineNode::Comment => LineModel::Comment,
            LineNode::SectionHeader(s) => LineModel::SectionHeader(s@),
            LineNode::Pair(k, t) => LineModel::Pair(k@, t@),
        }
    }
}

/// What a section header line matches after its `[`, starting at `i`:
/// an identifier, a closing `]`, and nothing but whitespace after it.
pub open spec fn section_spec(l: Seq<char>, i: int) -> Option<LineModel> {
    let a = first_non_ws(l, i);
    if a >= l.len() || !is_ident_start(l[a]) {
        None
    } else {
        let b = ident_end(l, a + 1);
        let c = first_non_ws(l, b);
        if c >= l.len() || l[c] != ']' {
            None
        } else {
            let d = first_non_ws(l, c + 1);
            if d < l.len() {
                None
            } else {
                Some(LineModel::SectionHeader(l.subrange(a, b)))
            }
        }
    }
}

/// What the value of a pair matches after its `=`, starting at `i`.
///
/// A value delimited by double quotes is the text between them, and may be
/// followed only by whitespace and an inline comment.  Otherwise the raw
/// token runs from the first non-whitespace character to the end of the
/// line or to a comment marker; an empty token is a mismatch, since a pair
/// requires exactly one value token.
pub open spec fn value_token_spec(l: Seq<char>, i: int) -> Option<TokenModel> {
    let a = first_non_ws(l, i);
    if a >= l.len() || is_comment_start(l[a]) {
        None
    } else if l[a] == '"' {
        let q = find_from(l, a + 1, '"');
        if q >= l.len() {
            None
        } else {
            let d = first_non_ws(l, q + 1);
            if d < l.len() && !is_comment_start(l[d]) {
                None
            } else {
                Some(TokenModel::Quoted(l.subrange(a + 1, q)))
            }
        }
    } else {
        let m = comment_from(l, a);
        Some(TokenModel::Bare(l.subrange(a, m)))
    }
}

/// What a pair line matches, its key identifier starting at `s` (the first
/// non-whitespace position of the line): an identifier, `=`, and a value.
pub open spec fn pair_spec(l: Seq<char>, s: int) -> Option<LineModel> {
    if !is_ident_start(l[s]) {
        None
    } else {
        let b = ident_end(l, s + 1);
        let e = first_non_ws(l, b);
        if e >= l.len() || l[e] != '=' {
            None
        } else {
            match value_token_spec(l, e + 1) {
                None => None,
                Some(t) => Some(LineModel::Pair(l.subrange(s, b), t)),
            }
        }
    }
}

/// What one whole line matches, if anything.
pub open spec fn parse_line_spec(l: Seq<char>) -> Option<LineModel> {
    let s = first_non_ws(l, 0);
    if s >= l.len() {
        Some(LineModel::Blank)
    } else if is_comment_start(l[s]) {
        Some(LineModel::Comment)
    } else if l[s] == '[' {
        section_spec(l, s + 1)
    } else {
        pair_spec(l, s)
    }
}

/// Parses one line.  Returns the parsed node exactly when the line matches
/// the grammar, and the column and kind of the first mismatch otherwise.
pub fn parse_line(l: &str) -> (r: Result<LineNode, LineFail>)
    ensures
        r is Ok <==> parse_line_spec(l@) is Some,
        r is Ok ==> r->Ok_0@ == parse_line_spec(l@)->Some_0,
        r is Err ==> r->Err_0.column <= l@.len(),
{
    let n = l.unicode_len();
    let s = skip_ws(l, 0, n);
    if s == n {
        return Ok(LineNode::Blank);
    }
    let c0 = l.get_char(s);
    if comment_char(c0) {
        return Ok(LineNode::Comment);
    }
    if c0 == '[' {
        parse_section_rest(l, s + 1, n)
    } else {
        parse_pair(l, s, n)
    }
}

/// Parses the rest of a section header line, after its `[`.
fn parse_section_rest(l: &str, i: usize, n: usize) -> (r: Result<LineNode, LineFail>)
    requires
        n == l@.len(),
        i <= n,
    ensures
        r is Ok <==> section_spec(l@, i as int) is Some,
        r is Ok ==> r->Ok_0@ == section_spec(l@, i as int)->Some_0,
        r is Err ==> r->Err_0.column <= l@.len(),
{
    let a = skip_ws(l, i, n);
    if a == n || !ident_start_char(l.get_char(a)) {
        return Err(LineFail { column: a, kind: SyntaxErrorKind::InvalidSectionName });
    }
    let b = scan_ident(l, a + 1, n);
    let c = skip_ws(l, b, n);
    if c == n || l.get_char(c) != ']' {
        return Err(LineFail { column: c, kind: SyntaxErrorKind::UnclosedSection });
    }
    let d = skip_ws(l, c + 1, n);
    if d < n {
        return Err(LineFail { column: d, kind: SyntaxErrorKind::TrailingAfterSection });
    }
    let name = l.substring_char(a, b).to_owned();
    Ok(LineNode::SectionHeader(name))
}

/// Parses a pair line, its key starting at `s`.
fn parse_pair(l: &str, s: usize, n: usize) -> (r: Result<LineNode, LineFail>)
    requires
        n == l@.len(),
        s < n,
    ensures
        r is Ok <==> pair_spec(l@, s as int) is Some,
        r is Ok ==> r->Ok_0@ == pair_spec(l@, s as int)->Some_0,
        r is Err ==> r->Err_0.column <= l@.len(),
{
    if !ident_start_char(l.get_char(s)) {
        return Err(LineFail { column: s, kind: SyntaxErrorKind::InvalidKey });
    }
    let b = scan_ident(l, s + 1, n);
    let e = skip_ws(l, b, n);
    if e == n || l.get_char(e) != '=' {
        return Err(LineFail { column: e, kind: SyntaxErrorKind::MissingEquals });
    }
    match extract_value(l, e + 1, n) {
        Ok(t) => {
            let key = l.substring_char(s, b).to_owned();
            Ok(LineNode::Pair(key, t))
        },
        Err(f) => Err(f),
    }
}

/// Extracts the value token of a pair, after its `=`.
fn extract_value(l: &str, i: usize, n: usize) -> (r: Result<ValueToken, LineFail>)
    requires
        n == l@.len(),
        i <= n,
    ensures
        r is Ok <==> value_token_spec(l@, i as int) is Some,
        r is Ok ==> r->Ok_0@ == value_token_spec(l@, i as int)->Some_0,
        r is Err ==> r->Err_0.column <= l@.len(),
{
    let a = skip_ws(l, i, n);
    if a == n || comment_char(l.get_char(a)) {
        return Err(LineFail { column: a, kind: SyntaxErrorKind::MissingValue });
    }
    if l.get_char(a) == '"' {
        let q = find_char(l, a + 1, n, '"');
        if q == n {
            return Err(LineFail { column: a, kind: SyntaxErrorKind::UnclosedQuote });
        }
        let d = skip_ws(l, q + 1, n);
        if d < n && !comment_char(l.get_char(d)) {
            return Err(LineFail { column: d, kind: SyntaxErrorKind::TrailingAfterQuote });
        }
        Ok(ValueToken::Quoted(l.substring_char(a + 1, q).to_owned()))
    } else {
        let m = find_comment(l, a, n);
        Ok(ValueToken::Bare(l.substring_char(a, m).to_owned()))
    }
}

/// Matches the identifier production against the start of `s`: the longest
/// prefix of identifier characters, which must begin with a letter or an
/// underscore and be non-empty.
pub fn match_dotted_identifier(s: &str) -> (r: Option<String>)
    ensures
        r is Some <==> s@.len() > 0 && is_ident_start(s@[0]),
        r is Some ==> r->0@ == s@.subrange(0, ident_end(s@, 1)),
{
    let n = s.unicode_len();
    if n == 0 || !ident_start_char(s.get_char(0)) {
        return None;
    }
    let b = scan_ident(s, 1, n);
    Some(s.substring_char(0, b).to_owned())
}

} // verus!
