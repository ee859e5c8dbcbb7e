//! Typed values and the resolver that classifies a matched value token.
//!
//! Classification precedence is fixed by the grammar: a quoted token is
//! always a string; a bare token is a number if its whole text matches the
//! numeric pattern, else a boolean if it is exactly one of the four boolean
//! literals, else a plain string trimmed of surrounding whitespace.

use vstd::prelude::*;

use crate::chars::{
    first_non_ws, is_digit, is_ws, find_from, trimmed, trim_end_from,
    lemma_find_stops_at, lemma_find_stops_lower, lemma_trim_end_bounds,
    digit_char, skip_ws, trim_end,
};

verus! {

/// The mathematical model of a typed value.
///
/// A number is modelled by the exact text of its token; its decimal reading
/// is a function of that text alone and is left to callers that work in
/// floating point.
pub ghost enum ValueModel {
    Str(Seq<char>),
    Num(Seq<char>),
    Bool(bool),
}

/// A typed configuration value.
///
/// `Number` carries the exact matched numeric token (for example `-0.75`
/// or `+1.2`); converting that text to a machine float is left to the
/// caller, since the token's decimal reading is already pinned by its text.
#[derive(Debug, Clone, PartialEq)]
pub enum IniValue {
    String(String),
    Number(String),
    Boolean(bool),
}

impl View for IniValue {
    type V = ValueModel;

    open spec fn view(&self) -> ValueModel {
        match self {
            IniValue::String(s) => ValueModel::Str(s@),
            IniValue::Number(s) => ValueModel::Num(s@),
            IniValue::Boolean(b) => ValueModel::Bool(*b),
        }
    }
}

/// The mathematical model of a matched value token, before resolution.
pub ghost enum TokenModel {
    /// The text between the quotes of a quoted string.
    Quoted(Seq<char>),
    /// The raw text of an unquoted value, as matched: from its first
    /// non-whitespace character up to the end of line or comment marker.
    Bare(Seq<char>),
}

/// A matched value token as extracted by the line parser.
#[derive(Debug, Clone, PartialEq)]
pub enum ValueToken {
    /// The text between the quotes, verbatim.
    Quoted(String),
    /// The raw unquoted text, not yet trimmed of trailing whitespace.
    Bare(String),
}

impl View for ValueToken {
    type V = TokenModel;

    open spec fn view(&self) -> TokenModel {
        match self {
            ValueToken::Quoted(s) => TokenModel::Quoted(s@),
            ValueToken::Bare(s) => TokenModel::Bare(s@),
        }
    }
}

/// Whether `t` is entirely a numeric token: an optional sign, one or more
/// digits, and optionally a dot followed by one or more digits.
pub open spec fn is_number_token(t: Seq<char>) -> bool {
    let b: int = if t.len() > 0 && (t[0] == '+' || t[0] == '-') {
        1
    } else {
        0
    };
    let d = find_from(t, b, '.');
    &&& b < d
    &&& (forall|j: int| b <= j < d ==> is_digit(t[j]))
    &&& (d == t.len() || (d + 1 < t.len() && forall|j: int|
        d + 1 <= j < t.len() ==> is_digit(t[j])))
}

/// The boolean a token denotes, if it is exactly one of the four boolean
/// literals.
pub open spec fn bool_token_value(t: Seq<char>) -> Option<bool> {
    if t =~= seq!['t', 'r', 'u', 'e'] || t =~= seq!['y', 'e', 's'] {
        Some(true)
    } else if t =~= seq!['f', 'a', 'l', 's', 'e'] || t =~= seq!['n', 'o'] {
        Some(false)
    } else {
        None
    }
}

/// Classifies a bare (already trimmed) token: number first, then boolean,
/// then plain string.
pub open spec fn classify_bare(t: Seq<char>) -> ValueModel {
    if is_number_token(t) {
        ValueModel::Num(t)
    } else if bool_token_value(t) is Some {
        ValueModel::Bool(bool_token_value(t)->Some_0)
    } else {
        ValueModel::Str(t)
    }
}

/// What the resolver returns for a matched value token: a quoted token is
/// the string between its quotes, verbatim; a bare token is trimmed and
/// classified.
pub open spec fn resolve_spec(t: TokenModel) -> ValueModel {
    match t {
        TokenModel::Quoted(s) => ValueModel::Str(s),
        TokenModel::Bare(raw) => classify_bare(trimmed(raw)),
    }
}

/// A token that starts with a character that is neither a digit nor a sign
/// is not numeric.
pub proof fn lemma_non_numeric_start(t: Seq<char>)
    requires
        t.len() > 0,
        !is_digit(t[0]),
        t[0] != '+',
        t[0] != '-',
    ensures
        !is_number_token(t),
{
    if is_number_token(t) {
        let d = find_from(t, 0, '.');
        assert(is_digit(t[0]));
    }
}

/// Exactly the four literals `true`, `yes`, `false`, `no` resolve to
/// booleans; every other non-numeric bare token resolves to a plain
/// string, never to an error.
pub proof fn lemma_boolean_classification(t: Seq<char>)
    ensures
        t == seq!['t', 'r', 'u', 'e'] ==> classify_bare(t) == ValueModel::Bool(true),
        t == seq!['y', 'e', 's'] ==> classify_bare(t) == ValueModel::Bool(true),
        t == seq!['f', 'a', 'l', 's', 'e'] ==> classify_bare(t) == ValueModel::Bool(false),
        t == seq!['n', 'o'] ==> classify_bare(t) == ValueModel::Bool(false),
        bool_token_value(t) is None && !is_number_token(t) ==> classify_bare(t)
            == ValueModel::Str(t),
{
    if t == seq!['t', 'r', 'u', 'e'] || t == seq!['y', 'e', 's'] || t == seq![
        'f',
        'a',
        'l',
        's',
        'e',
    ] || t == seq!['n', 'o'] {
        lemma_non_numeric_start(t);
    }
}

/// A token whose whole text matches the numeric pattern resolves to a
/// number carrying exactly that text.
pub proof fn lemma_numeric_classification(t: Seq<char>)
    requires
        is_number_token(t),
    ensures
        classify_bare(t) == ValueModel::Num(t),
{
}

/// Executable check of [`is_number_token`].
pub fn number_token(t: &str) -> (r: bool)
    ensures
        r == is_number_token(t@),
{
    let n = t.unicode_len();
    let b: usize = if n > 0 && (t.get_char(0) == '+' || t.get_char(0) == '-') {
        1
    } else {
        0
    };
    let mut j = b;
    // scan the digits before the dot / end
    while j < n && t.get_char(j) != '.' && digit_char(t.get_char(j))
        invariant
            n == t@.len(),
            b <= j <= n,
            forall|k: int| b <= k < j ==> is_digit(t@[k]) && t@[k] != '.',
        decreases n - j,
    {
        j = j + 1;
    }
    if j == b {
        // no digit at all before the dot or the end
        proof {
            let d = find_from(t@, b as int, '.');
            if is_number_token(t@) {
                crate::chars::lemma_find_from_bounds(t@, b as int, '.');
                assert(is_digit(t@[b as int]));
                assert(t@[b as int] != '.');
            }
        }
        return false;
    }
    if j == n {
        proof {
            lemma_find_stops_at(t@, b as int, j as int, '.');
        }
        return true;
    }
    let c = t.get_char(j);
    if c != '.' {
        // a non-digit, non-dot character inside the integer part
        proof {
            assert(forall|k: int| b as int <= k < j as int + 1 ==> t@[k] != '.');
            lemma_find_stops_lower(t@, b as int, j as int + 1, '.');
            if is_number_token(t@) {
                assert(is_digit(t@[j as int]));
            }
        }
        return false;
    }
    proof {
        lemma_find_stops_at(t@, b as int, j as int, '.');
    }
    // fractional part: at least one digit, digits to the end
    let mut k = j + 1;
    if k == n {
        return false;
    }
    while k < n && digit_char(t.get_char(k))
        invariant
            n == t@.len(),
            j + 1 <= k <= n,
            forall|m: int| j + 1 <= m < k ==> is_digit(t@[m]),
        decreases n - k,
    {
        k = k + 1;
    }
    proof {
        if k < n {
            if is_number_token(t@) {
                assert(is_digit(t@[k as int]));
            }
        } else {
            assert(is_number_token(t@));
        }
    }
    k == n
}

/// Executable check whether `t` is exactly one of the four boolean
/// literals, and which boolean it denotes.
pub fn bool_token(t: &str) -> (r: Option<bool>)
    ensures
        r == bool_token_value(t@),
{
    let n = t.unicode_len();
    if n == 4 && t.get_char(0) == 't' && t.get_char(1) == 'r' && t.get_char(2) == 'u'
        && t.get_char(3) == 'e' {
        proof {
            assert(t@ =~= seq!['t', 'r', 'u', 'e']);
        }
        Some(true)
    } else if n == 3 && t.get_char(0) == 'y' && t.get_char(1) == 'e' && t.get_char(2) == 's' {
        proof {
            assert(t@ =~= seq!['y', 'e', 's']);
        }
        Some(true)
    } else if n == 5 && t.get_char(0) == 'f' && t.get_char(1) == 'a' && t.get_char(2) == 'l'
        && t.get_char(3) == 's' && t.get_char(4) == 'e' {
        proof {
            assert(t@ =~= seq!['f', 'a', 'l', 's', 'e']);
        }
        Some(false)
    } else if n == 2 && t.get_char(0) == 'n' && t.get_char(1) == 'o' {
        proof {
            assert(t@ =~= seq!['n', 'o']);
        }
        Some(false)
    } else {
        proof {
            if t@ =~= seq!['t', 'r', 'u', 'e'] || t@ =~= seq!['y', 'e', 's'] || t@ =~= seq![
                'f',
                'a',
                'l',
                's',
                'e',
            ] || t@ =~= seq!['n', 'o'] {
                assert(false);
            }
        }
        None
    }
}

/// Resolves a matched value token into a typed value, following the
/// classification precedence of the grammar.
pub fn resolve_value(t: &ValueToken) -> (v: IniValue)
    ensures
        v@ == resolve_spec(t@),
{
    match t {
        ValueToken::Quoted(s) => IniValue::String(s.clone()),
        ValueToken::Bare(raw) => {
            let r: &str = raw.as_str();
            let n = r.unicode_len();
            let a = skip_ws(r, 0, n);
            if a == n {
                proof {
                    assert(trimmed(r@) =~= Seq::<char>::empty());
                    lemma_non_numeric_token_empty(trimmed(r@));
                }
                IniValue::String(String::new())
            } else {
                let e = trim_end(r, a, n);
                proof {
                    lemma_trim_end_bounds(r@, a as int, n as int);
                    assert(e > a) by {
                        if trim_end_from(r@, a as int, n as int) == a as int {
                            lemma_trim_stops_above(r@, a as int, n as int);
                        }
                    };
                }
                let tok = r.substring_char(a, e);
                proof {
                    assert(tok@ == trimmed(r@));
                }
                if number_token(tok) {
                    IniValue::Number(tok.to_owned())
                } else {
                    match bool_token(tok) {
                        Some(b) => IniValue::Boolean(b),
                        None => IniValue::String(tok.to_owned()),
                    }
                }
            }
        },
    }
}

/// The empty token is neither numeric nor boolean.
proof fn lemma_non_numeric_token_empty(t: Seq<char>)
    requires
        t.len() == 0,
    ensures
        !is_number_token(t),
        bool_token_value(t) is None,
{
}

/// If `l[a]` is not whitespace, trimming `l[a..e]` from the right never
/// reaches back to `a`.
proof fn lemma_trim_stops_above(l: Seq<char>, a: int, e: int)
    requires
        0 <= a < e <= l.len(),
        !is_ws(l[a]),
    ensures
        trim_end_from(l, a, e) > a,
    decreases e - a,
{
    if is_ws(l[e - 1]) {
        if e - 1 > a {
            lemma_trim_stops_above(l, a, e - 1);
        }
    }
}

} // verus!
