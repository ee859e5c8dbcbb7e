//! The whole pipeline: split the input into lines, parse each line, and
//! fold the document assembler over the parsed nodes.
//!
//! Parsing is all-or-nothing.  [`parse_spec`] denotes the document of an
//! input text, or nothing if any line fails to match; [`parse_ini`] is
//! proved to return `Ok` exactly on the inputs where [`parse_spec`] is
//! defined, with a document whose view is the denoted map, and otherwise a
//! syntax error located on the first line that does not match.

use vstd::prelude::*;

use crate::chars::{find_from, lemma_find_from_no_hit, lemma_find_stops_at, find_char};
use crate::document::Document;
use crate::error::IniError;
use crate::line::{parse_line, parse_line_spec, LineModel, LineNode};
use crate::value::{resolve_spec, resolve_value, TokenModel, ValueModel};

verus! {

/// The mathematical model of a document.
pub type DocMap = Map<Seq<char>, Map<Seq<char>, ValueModel>>;

/// The lines of `s`: the pieces between newline characters.  A text
/// without a final newline still ends in a (possibly empty) line.
pub open spec fn lines_of(s: Seq<char>) -> Seq<Seq<char>>
    decreases s.len(),
{
    let e = find_from(s, 0, '\n');
    if 0 <= e < s.len() {
        seq![s.subrange(0, e)] + lines_of(s.subrange(e + 1, s.len() as int))
    } else {
        seq![s]
    }
}

/// The document the assembler starts from: one empty default section.
pub open spec fn init_doc() -> DocMap {
    Map::empty().insert(Seq::empty(), Map::empty())
}

/// One step of the document assembler: how a parsed line transforms the
/// active section name and the document built so far.
pub open spec fn apply_node(cur: Seq<char>, doc: DocMap, node: LineModel) -> (Seq<char>, DocMap) {
    match node {
        LineModel::Blank => (cur, doc),
        LineModel::Comment => (cur, doc),
        LineModel::SectionHeader(name) => (
            name,
            if doc.contains_key(name) {
                doc
            } else {
                doc.insert(name, Map::empty())
            },
        ),
        LineModel::Pair(k, t) => (cur, doc.insert(cur, doc[cur].insert(k, resolve_spec(t)))),
    }
}

/// Folds the assembler over a sequence of lines, failing on the first
/// line that does not match the grammar.
pub open spec fn assemble_lines(ls: Seq<Seq<char>>, cur: Seq<char>, doc: DocMap) -> Option<DocMap>
    decreases ls.len(),
{
    if ls.len() == 0 {
        Some(doc)
    } else {
        match parse_line_spec(ls[0]) {
            None => None,
            Some(node) => {
                let st = apply_node(cur, doc, node);
                assemble_lines(ls.drop_first(), st.0, st.1)
            },
        }
    }
}

/// The document denoted by an input text, if every line matches.
pub open spec fn parse_spec(s: Seq<char>) -> Option<DocMap> {
    assemble_lines(lines_of(s), Seq::empty(), init_doc())
}

/// The index of the first line that does not match, or the number of
/// lines if all match.
pub open spec fn first_bad_line(ls: Seq<Seq<char>>) -> int
    decreases ls.len(),
{
    if ls.len() == 0 {
        0
    } else if parse_line_spec(ls[0]) is None {
        0
    } else {
        1 + first_bad_line(ls.drop_first())
    }
}

/// If every line of `pre` matches and the first line of `post` does not,
/// the first bad line of `pre + post` is right after `pre`.
proof fn lemma_first_bad_concat(pre: Seq<Seq<char>>, post: Seq<Seq<char>>)
    requires
        forall|j: int| 0 <= j < pre.len() ==> parse_line_spec(pre[j]) is Some,
        post.len() > 0,
        parse_line_spec(post[0]) is None,
    ensures
        first_bad_line(pre + post) == pre.len(),
    decreases pre.len(),
{
    if pre.len() == 0 {
        assert(pre + post =~= post);
    } else {
        assert((pre + post)[0] == pre[0]);
        assert((pre + post).drop_first() =~= pre.drop_first() + post);
        assert(forall|j: int|
            0 <= j < pre.drop_first().len() ==> parse_line_spec(pre.drop_first()[j]) is Some);
        lemma_first_bad_concat(pre.drop_first(), post);
    }
}

/// The assembler never removes a section: a key of the document it starts
/// from is a key of the document it ends with.
pub proof fn lemma_assemble_keeps_key(
    ls: Seq<Seq<char>>,
    cur: Seq<char>,
    doc: DocMap,
    k: Seq<char>,
)
    requires
        doc.contains_key(k),
        assemble_lines(ls, cur, doc) is Some,
    ensures
        assemble_lines(ls, cur, doc)->Some_0.contains_key(k),
    decreases ls.len(),
{
    if ls.len() > 0 {
        match parse_line_spec(ls[0]) {
            Some(node) => {
                let st = apply_node(cur, doc, node);
                assert(st.1.contains_key(k));
                lemma_assemble_keeps_key(ls.drop_first(), st.0, st.1, k);
            },
            None => {},
        }
    }
}

/// Parsing is deterministic: the document denoted by an input text is a
/// function of that text alone, so parsing twice yields equal documents.
pub proof fn lemma_parse_deterministic(s: Seq<char>, d1: DocMap, d2: DocMap)
    requires
        parse_spec(s) == Some(d1),
        parse_spec(s) == Some(d2),
    ensures
        d1 == d2,
{
}

/// A successfully parsed document always holds the default section, named
/// by the empty string, whatever the input.
pub proof fn lemma_default_section(s: Seq<char>)
    requires
        parse_spec(s) is Some,
    ensures
        parse_spec(s)->Some_0.contains_key(Seq::<char>::empty()),
{
    lemma_assemble_keeps_key(lines_of(s), Seq::empty(), init_doc(), Seq::empty());
}

/// Reopening a section keeps its contents: a header whose name the
/// document already holds only changes the active section name.
pub proof fn lemma_reopen_section(cur: Seq<char>, doc: DocMap, name: Seq<char>)
    requires
        doc.contains_key(name),
    ensures
        apply_node(cur, doc, LineModel::SectionHeader(name)) == (name, doc),
{
}

/// A pair goes to the active section and touches nothing else: every
/// other section keeps its contents, and no section disappears, so keys
/// accumulate across all spans of a reopened section.
pub proof fn lemma_pair_updates_active_section(
    cur: Seq<char>,
    doc: DocMap,
    k: Seq<char>,
    t: TokenModel,
)
    requires
        doc.contains_key(cur),
    ensures
        ({
            let st = apply_node(cur, doc, LineModel::Pair(k, t));
            &&& st.0 == cur
            &&& st.1[cur] == doc[cur].insert(k, resolve_spec(t))
            &&& forall|s: Seq<char>| s != cur && doc.contains_key(s) ==> st.1[s] == doc[s]
            &&& forall|s: Seq<char>| st.1.contains_key(s) <==> doc.contains_key(s)
        }),
{
}

/// Within one section's active span a duplicate key keeps only the value
/// assigned last; every other key of the section keeps its value.
pub proof fn lemma_duplicate_key_overwrites(
    cur: Seq<char>,
    doc: DocMap,
    k: Seq<char>,
    t: TokenModel,
)
    requires
        doc.contains_key(cur),
    ensures
        ({
            let st = apply_node(cur, doc, LineModel::Pair(k, t));
            &&& st.1[cur][k] == resolve_spec(t)
            &&& forall|k2: Seq<char>|
                k2 != k && doc[cur].contains_key(k2) ==> st.1[cur][k2] == doc[cur][k2]
        }),
{
}

/// Parses an input text into a [`Document`], or reports the first line
/// that does not match the grammar.
pub fn parse_ini(input: &str) -> (r: Result<Document, IniError>)
    requires
        input@.len() < usize::MAX,
    ensures
        r is Ok <==> parse_spec(input@) is Some,
        r is Ok ==> r->Ok_0.wf() && r->Ok_0@ == parse_spec(input@)->Some_0,
        r is Ok ==> r->Ok_0@.contains_key(Seq::<char>::empty()),
        r is Err ==> (r->Err_0 matches IniError::SyntaxError { line, .. } && line == 1
            + first_bad_line(lines_of(input@))),
{
    let n = input.unicode_len();
    let mut doc = Document::new();
    let mut cur = String::new();
    let mut start: usize = 0;
    let mut lineno: usize = 0;
    let ghost mut done: Seq<Seq<char>> = Seq::empty();
    proof {
        assert(input@.subrange(0, n as int) =~= input@);
    }
    loop
        invariant
            n == input@.len(),
            n < usize::MAX,
            start <= n,
            lineno <= start,
            doc.wf(),
            doc@.contains_key(cur@),
            doc@.contains_key(Seq::<char>::empty()),
            lines_of(input@) == done + lines_of(input@.subrange(start as int, n as int)),
            done.len() == lineno,
            forall|j: int| 0 <= j < done.len() ==> parse_line_spec(done[j]) is Some,
            parse_spec(input@) == assemble_lines(
                lines_of(input@.subrange(start as int, n as int)),
                cur@,
                doc@,
            ),
        decreases n - start,
    {
        let ghost rest = input@.subrange(start as int, n as int);
        let e = find_char(input, start, n, '\n');
        let line: &str = input.substring_char(start, e);
        proof {
            lemma_find_from_no_hit(input@, start as int, '\n');
            assert(forall|k: int| 0 <= k < rest.len() ==> rest[k] == input@[start + k]);
            lemma_find_stops_at(rest, 0, e - start, '\n');
            assert(line@ =~= rest.subrange(0, e - start));
            if e < n {
                assert(rest.subrange(e - start + 1, rest.len() as int) =~= input@.subrange(
                    e + 1,
                    n as int,
                ));
                assert(lines_of(rest) == seq![line@] + lines_of(
                    input@.subrange(e + 1, n as int),
                ));
            } else {
                assert(rest =~= line@);
                assert(lines_of(rest) == seq![line@]);
            }
            assert(lines_of(rest)[0] == line@);
            assert(lines_of(rest).len() > 0);
        }
        match parse_line(line) {
            Err(f) => {
                proof {
                    assert(assemble_lines(lines_of(rest), cur@, doc@) is None);
                    lemma_first_bad_concat(done, lines_of(rest));
                }
                return Err(
                    IniError::SyntaxError {
                        line: lineno + 1,
                        column: f.column + 1,
                        kind: f.kind,
                    },
                );
            },
            Ok(node) => {
                let ghost node_model = node@;
                let ghost cur0 = cur@;
                let ghost doc0 = doc@;
                match node {
                    LineNode::Blank => {},
                    LineNode::Comment => {},
                    LineNode::SectionHeader(name) => {
                        doc.ensure_section(name.as_str());
                        cur = name;
                    },
                    LineNode::Pair(key, tok) => {
                        let v = resolve_value(&tok);
                        doc.insert_value(cur.as_str(), key, v);
                    },
                }
                proof {
                    assert((cur@, doc@) == apply_node(cur0, doc0, node_model));
                    assert(assemble_lines(lines_of(rest), cur0, doc0) == assemble_lines(
                        lines_of(rest).drop_first(),
                        cur@,
                        doc@,
                    ));
                }
                if e == n {
                    proof {
                        assert(lines_of(rest).drop_first() =~= Seq::<Seq<char>>::empty());
                        assert(parse_spec(input@) == Some(doc@));
                    }
                    return Ok(doc);
                }
                proof {
                    assert(lines_of(rest).drop_first() =~= lines_of(
                        input@.subrange(e + 1, n as int),
                    ));
                    assert(done + lines_of(rest) =~= done.push(line@) + lines_of(
                        input@.subrange(e + 1, n as int),
                    ));
                    done = done.push(line@);
                }
                start = e + 1;
                lineno = lineno + 1;
            },
        }
    }
}

/// The parser, as a named entry point.
///
/// Grammar productions: `file` is a sequence of lines; a line is blank, a
/// comment, a `section` header `[dotted_identifier]`, or a `pair`
/// `dotted_identifier = value` with an optional trailing inline comment;
/// a `value` is a quoted string, a number, a boolean literal, or a bare
/// string.
pub struct IniParser;

impl IniParser {
    /// Parses a whole input text; identical in contract to [`parse_ini`].
    pub fn parse(input: &str) -> (r: Result<Document, IniError>)
        requires
            input@.len() < usize::MAX,
        ensures
            r is Ok <==> parse_spec(input@) is Some,
            r is Ok ==> r->Ok_0.wf() && r->Ok_0@ == parse_spec(input@)->Some_0,
            r is Ok ==> r->Ok_0@.contains_key(Seq::<char>::empty()),
            r is Err ==> (r->Err_0 matches IniError::SyntaxError { line, .. } && line == 1
                + first_bad_line(lines_of(input@))),
    {
        parse_ini(input)
    }
}

} // verus!
