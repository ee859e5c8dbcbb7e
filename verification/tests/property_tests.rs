use ini_parser::{parse_ini, IniError, IniValue, LineNode, SyntaxErrorKind};

/// Parsing the same text twice yields equal documents.
#[test]
fn parse_is_deterministic() {
    let input = "a = 1\n[s]\nb = yes\nc = \"x\" ; t\n";
    let d1 = parse_ini(input).unwrap();
    let d2 = parse_ini(input).unwrap();
    assert_eq!(d1, d2);
}

/// The default section exists even for an empty input.
#[test]
fn default_section_always_present() {
    let doc = parse_ini("").unwrap();
    assert!(doc.get("").is_some());
    assert_eq!(doc.len(), 1);
    assert_eq!(doc.get("").unwrap().len(), 0);

    let doc = parse_ini("; only a comment\n").unwrap();
    assert!(doc.get("").is_some());
}

/// Case variants of the boolean literals are plain strings, not errors.
#[test]
fn boolean_literals_are_exact() {
    let doc = parse_ini("a = True\nb = YES\nc = no\nd = false\n").unwrap();
    let global = doc.get("").unwrap();
    assert_eq!(global.get("a").unwrap(), &IniValue::String("True".to_string()));
    assert_eq!(global.get("b").unwrap(), &IniValue::String("YES".to_string()));
    assert_eq!(global.get("c").unwrap(), &IniValue::Boolean(false));
    assert_eq!(global.get("d").unwrap(), &IniValue::Boolean(false));
}

/// A numeric token keeps its exact text; near-numeric tokens are strings.
#[test]
fn numeric_tokens() {
    let doc = parse_ini("a = 007\nb = -0.5\nc = 1.\nd = .5\ne = 1.2.3\nf = 12abc\n").unwrap();
    let global = doc.get("").unwrap();
    assert_eq!(global.get("a").unwrap(), &IniValue::Number("007".to_string()));
    assert_eq!(global.get("b").unwrap(), &IniValue::Number("-0.5".to_string()));
    assert_eq!(global.get("c").unwrap(), &IniValue::String("1.".to_string()));
    assert_eq!(global.get("d").unwrap(), &IniValue::String(".5".to_string()));
    assert_eq!(global.get("e").unwrap(), &IniValue::String("1.2.3".to_string()));
    assert_eq!(global.get("f").unwrap(), &IniValue::String("12abc".to_string()));
}

/// Empty quotes resolve to the empty string.
#[test]
fn empty_quoted_value() {
    let doc = parse_ini("k = \"\"").unwrap();
    assert_eq!(
        doc.get("").unwrap().get("k").unwrap(),
        &IniValue::String("".to_string())
    );
}

/// A quoted value keeps comment markers and spaces verbatim.
#[test]
fn quoted_value_verbatim() {
    let doc = parse_ini("k = \" a;b#c \" # trailing\n").unwrap();
    assert_eq!(
        doc.get("").unwrap().get("k").unwrap(),
        &IniValue::String(" a;b#c ".to_string())
    );
}

/// Reopening a section accumulates keys across all its occurrences.
#[test]
fn reopened_section_accumulates() {
    let input = "[s]\na = 1\n[t]\nx = 2\n[s]\nb = 3\n";
    let doc = parse_ini(input).unwrap();
    let s = doc.get("s").unwrap();
    assert_eq!(s.len(), 2);
    assert_eq!(s.get("a").unwrap(), &IniValue::Number("1".to_string()));
    assert_eq!(s.get("b").unwrap(), &IniValue::Number("3".to_string()));
    assert_eq!(doc.get("t").unwrap().len(), 1);
}

/// A duplicate key keeps only the last-assigned value.
#[test]
fn duplicate_key_overwrites() {
    let doc = parse_ini("k = first\nk = second\n").unwrap();
    let global = doc.get("").unwrap();
    assert_eq!(global.len(), 1);
    assert_eq!(
        global.get("k").unwrap(),
        &IniValue::String("second".to_string())
    );
}

fn kind_of(e: IniError) -> SyntaxErrorKind {
    match e {
        IniError::SyntaxError { kind, .. } => kind,
        _ => panic!("expected a syntax error"),
    }
}

/// Each kind of grammar mismatch is reported as such.
#[test]
fn error_kinds() {
    assert_eq!(
        kind_of(parse_ini("[!x]").unwrap_err()),
        SyntaxErrorKind::InvalidSectionName
    );
    assert_eq!(
        kind_of(parse_ini("[section").unwrap_err()),
        SyntaxErrorKind::UnclosedSection
    );
    assert_eq!(
        kind_of(parse_ini("[a] junk").unwrap_err()),
        SyntaxErrorKind::TrailingAfterSection
    );
    assert_eq!(
        kind_of(parse_ini("!key = value").unwrap_err()),
        SyntaxErrorKind::InvalidKey
    );
    assert_eq!(
        kind_of(parse_ini("key value").unwrap_err()),
        SyntaxErrorKind::MissingEquals
    );
    assert_eq!(
        kind_of(parse_ini("key =").unwrap_err()),
        SyntaxErrorKind::MissingValue
    );
    assert_eq!(
        kind_of(parse_ini("key = \"hello").unwrap_err()),
        SyntaxErrorKind::UnclosedQuote
    );
    assert_eq!(
        kind_of(parse_ini("key = \"a\" b").unwrap_err()),
        SyntaxErrorKind::TrailingAfterQuote
    );
}

/// The reported position names the first offending line.
#[test]
fn error_location() {
    let err = parse_ini("good = 1\nalso.good = yes\n[bad\n").unwrap_err();
    match err {
        IniError::SyntaxError { line, column, kind } => {
            assert_eq!(line, 3);
            assert_eq!(column, 5);
            assert_eq!(kind, SyntaxErrorKind::UnclosedSection);
        }
        _ => panic!("expected a syntax error"),
    }
}

/// Whitespace may stand between the tokens of a section header.
#[test]
fn section_header_whitespace() {
    let doc = parse_ini("  [ sec.tion ]  \nk = v\n").unwrap();
    assert!(doc.get("sec.tion").is_some());
    assert_eq!(
        doc.get("sec.tion").unwrap().get("k").unwrap(),
        &IniValue::String("v".to_string())
    );
}

/// An empty section name `[]` is rejected: identifiers are non-empty.
#[test]
fn empty_section_name_fails() {
    assert!(parse_ini("[]").is_err());
    assert!(parse_ini("[.a]").is_err());
    assert!(parse_ini("[1a]").is_err());
}

/// `#` starts comments just as `;` does.
#[test]
fn hash_comments() {
    let doc = parse_ini("# comment\nk = v # tail\n").unwrap();
    assert_eq!(
        doc.get("").unwrap().get("k").unwrap(),
        &IniValue::String("v".to_string())
    );
}

/// The line parser classifies blank, comment, section, and pair lines.
#[test]
fn line_nodes() {
    assert!(matches!(ini_parser::parse_line("   ").unwrap(), LineNode::Blank));
    assert!(matches!(ini_parser::parse_line("; c").unwrap(), LineNode::Comment));
    assert!(matches!(
        ini_parser::parse_line("[s]").unwrap(),
        LineNode::SectionHeader(_)
    ));
    assert!(matches!(
        ini_parser::parse_line("a = b").unwrap(),
        LineNode::Pair(_, _)
    ));
    assert!(ini_parser::parse_line("a b").is_err());
}

/// The identifier rule needs a valid first character.
#[test]
fn identifier_matching() {
    assert!(ini_parser::match_dotted_identifier("9abc").is_none());
    assert!(ini_parser::match_dotted_identifier("").is_none());
    assert_eq!(
        ini_parser::match_dotted_identifier("_a-b.c=rest").unwrap(),
        "_a-b.c".to_string()
    );
}
