use ini_parser::{parse_ini, IniValue, LineNode, ValueToken};

/// Reads a numeric value as a double, panicking on any other variant.
fn num(v: &IniValue) -> f64 {
    match v {
        IniValue::Number(s) => s.parse::<f64>().unwrap(),
        _ => panic!("expected a number"),
    }
}

#[test]
fn test_full_parsing() {
    let input = r#"
; Глобальні налаштування
global_bool = yes
api.key = "my-secret-key" # inline comment

[server.prod]
port = 8080
active = true
load_factor = -0.75
url = "https://api.example.com"
empty_quoted = ""

[server.dev]
port = 3000
active = false
url = http://localhost:3000 ; simple string
"#;

    let data = parse_ini(input).unwrap();

    let global = data.get("").unwrap();
    assert_eq!(global.get("global_bool").unwrap(), &IniValue::Boolean(true));
    assert_eq!(
        global.get("api.key").unwrap(),
        &IniValue::String("my-secret-key".to_string())
    );

    let server_prod = data.get("server.prod").unwrap();
    assert_eq!(num(server_prod.get("port").unwrap()), 8080.0);
    assert_eq!(server_prod.get("active").unwrap(), &IniValue::Boolean(true));
    assert_eq!(num(server_prod.get("load_factor").unwrap()), -0.75);
    assert_eq!(
        server_prod.get("url").unwrap(),
        &IniValue::String("https://api.example.com".to_string())
    );
    assert_eq!(
        server_prod.get("empty_quoted").unwrap(),
        &IniValue::String("".to_string())
    );

    let server_dev = data.get("server.dev").unwrap();
    assert_eq!(num(server_dev.get("port").unwrap()), 3000.0);
    assert_eq!(server_dev.get("active").unwrap(), &IniValue::Boolean(false));
    assert_eq!(
        server_dev.get("url").unwrap(),
        &IniValue::String("http://localhost:3000".to_string())
    );
}

#[test]
fn test_whitespace_and_empty_lines() {
    let input = r#"
key1=value1

[section1]
key2  =  value2


    key3 = value3

"#;
    let data = parse_ini(input).unwrap();
    let global = data.get("").unwrap();
    let section1 = data.get("section1").unwrap();

    assert_eq!(
        global.get("key1").unwrap(),
        &IniValue::String("value1".to_string())
    );
    assert_eq!(
        section1.get("key2").unwrap(),
        &IniValue::String("value2".to_string())
    );
    assert_eq!(
        section1.get("key3").unwrap(),
        &IniValue::String("value3".to_string())
    );
    assert_eq!(global.len(), 1);
    assert_eq!(section1.len(), 2);
}

#[test]
fn test_all_value_types() {
    let input = r#"
b_true = true
b_false = false
b_yes = yes
b_no = no
n_int = 123
n_neg = -456
n_float = 123.456
n_float_pos = +1.2
s_simple =   simple string with spaces   
"#;
    let document = parse_ini(input).unwrap();
    let data = document.get("").unwrap().clone();

    assert_eq!(data.get("b_true").unwrap(), &IniValue::Boolean(true));
    assert_eq!(data.get("b_false").unwrap(), &IniValue::Boolean(false));
    assert_eq!(data.get("b_yes").unwrap(), &IniValue::Boolean(true));
    assert_eq!(data.get("b_no").unwrap(), &IniValue::Boolean(false));
    assert_eq!(num(data.get("n_int").unwrap()), 123.0);
    assert_eq!(num(data.get("n_neg").unwrap()), -456.0);
    assert_eq!(num(data.get("n_float").unwrap()), 123.456);
    assert_eq!(num(data.get("n_float_pos").unwrap()), 1.2);
    assert_eq!(
        data.get("s_simple").unwrap(),
        &IniValue::String("simple string with spaces".to_string())
    );
}

#[test]
fn test_rule_dotted_identifier() {
    let matched = ini_parser::match_dotted_identifier("a.b.c_123-d").unwrap();
    assert_eq!(matched.as_str(), "a.b.c_123-d");
}

#[test]
fn test_rule_pair_with_inline_comment() {
    let node = ini_parser::parse_line("key = value ; comment").unwrap();
    match node {
        LineNode::Pair(key, token) => {
            assert_eq!(key.as_str(), "key");
            match &token {
                // the raw token runs up to the comment marker, untrimmed
                ValueToken::Bare(raw) => assert_eq!(raw.as_str(), "value "),
                _ => panic!("expected a bare token"),
            }
            // the inline comment is silent: it is not part of the value
            assert_eq!(
                ini_parser::resolve_value(&token),
                IniValue::String("value".to_string())
            );
        }
        _ => panic!("expected a pair"),
    }
}

#[test]
fn test_fail_unclosed_section() {
    let input = "[section";
    assert!(parse_ini(input).is_err());
}

#[test]
fn test_fail_unclosed_quote() {
    let input = "key = \"hello";
    assert!(parse_ini(input).is_err());
}

#[test]
fn test_fail_invalid_key() {
    let input = "!key = value";
    assert!(parse_ini(input).is_err());
}

#[test]
fn test_fail_missing_equals() {
    let input = "key value";
    assert!(parse_ini(input).is_err());
}

#[test]
fn test_fail_no_value() {
    let input = "key =";
    assert!(parse_ini(input).is_err());
}

#[test]
fn test_fail_invalid_boolean() {
    let input = "key = truthy";
    let data = parse_ini(input).unwrap();
    assert_eq!(
        data.get("").unwrap().get("key").unwrap(),
        &IniValue::String("truthy".to_string())
    );
}
