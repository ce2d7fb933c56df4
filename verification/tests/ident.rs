use ducklake_orm::error::DuckLakeError;
use ducklake_orm::ident::{escape_sql_string, validate_identifier};

#[test]
fn valid_identifiers() {
    assert!(validate_identifier("lake", "catalog_name").is_ok());
    assert!(validate_identifier("main", "schema").is_ok());
    assert!(validate_identifier("_foo", "x").is_ok());
    assert!(validate_identifier("abc_123", "x").is_ok());
    assert!(validate_identifier("A", "x").is_ok());
}

#[test]
fn invalid_identifiers() {
    assert!(validate_identifier("", "x").is_err());
    assert!(validate_identifier("1abc", "x").is_err()); // starts with digit
    assert!(validate_identifier("a b", "x").is_err()); // whitespace
    assert!(validate_identifier("a;b", "x").is_err()); // semicolon
    assert!(validate_identifier("a'b", "x").is_err()); // quote
    assert!(validate_identifier("a-b", "x").is_err()); // hyphen
    assert!(validate_identifier("a.b", "x").is_err()); // dot
    assert!(validate_identifier("x); DROP TABLE t; --", "x").is_err());
}

#[test]
fn escape_quotes_and_backslashes() {
    assert_eq!(escape_sql_string("simple"), "simple");
    assert_eq!(escape_sql_string("it's"), "it''s");
    assert_eq!(escape_sql_string(r"a\b"), r"a\\b");
    assert_eq!(
        escape_sql_string("x'); DROP TABLE t; --"),
        "x''); DROP TABLE t; --"
    );
}

fn config_message(r: Result<(), DuckLakeError>) -> String {
    match r {
        Err(DuckLakeError::Config(m)) => m,
        other => panic!("expected a configuration error, got {other:?}"),
    }
}

#[test]
fn empty_identifier_message() {
    assert_eq!(
        config_message(validate_identifier("", "schema")),
        "schema must not be empty"
    );
}

#[test]
fn bad_identifier_message() {
    assert_eq!(
        config_message(validate_identifier("a-b", "catalog_name")),
        "catalog_name 'a-b' is not a valid SQL identifier; only ASCII letters, digits, and underscores are allowed (and it must not start with a digit)"
    );
}

#[test]
fn identifier_length_limit() {
    let ok = "a".repeat(63);
    assert!(validate_identifier(&ok, "x").is_ok());
    let long = "a".repeat(64);
    assert_eq!(
        config_message(validate_identifier(&long, "x")),
        format!("x '{long}' is too long (64 bytes; maximum is 63)")
    );
}

#[test]
fn non_ascii_identifier_is_refused() {
    assert!(validate_identifier("café", "x").is_err());
}

#[test]
fn escaping_empty_and_plain_text() {
    assert_eq!(escape_sql_string(""), "");
    assert_eq!(escape_sql_string("''"), "''''");
    assert_eq!(escape_sql_string("\\'"), "\\\\''");
}

/// Reads an escaped literal body back: `''` and `\\` each stand for one character.
fn unescape(t: &str) -> String {
    let cs: Vec<char> = t.chars().collect();
    let mut out = String::new();
    let mut i = 0;
    while i < cs.len() {
        if i + 1 < cs.len() && ((cs[i] == '\'' && cs[i + 1] == '\'') || (cs[i] == '\\' && cs[i + 1] == '\\')) {
            out.push(cs[i]);
            i += 2;
        } else {
            out.push(cs[i]);
            i += 1;
        }
    }
    out
}

#[test]
fn escaping_reads_back() {
    for s in ["", "plain", "it's", "a\\b", "''\\\\'", "x'); DROP TABLE t; --", "ünï'cödé"] {
        assert_eq!(unescape(&escape_sql_string(s)), s);
    }
}

#[test]
fn escaped_text_never_closes_the_literal() {
    let e = escape_sql_string("a'b''c'");
    // every quote comes in a pair, so the literal cannot end early
    let quotes: Vec<usize> = e.char_indices().filter(|(_, c)| *c == '\'').map(|(i, _)| i).collect();
    assert_eq!(quotes.len() % 2, 0);
    for pair in quotes.chunks(2) {
        assert_eq!(pair[1], pair[0] + 1);
    }
}

#[test]
fn valid_identifiers_are_left_alone_by_escaping() {
    for name in ["lake", "_foo", "abc_123", "A"] {
        assert!(validate_identifier(name, "x").is_ok());
        assert_eq!(escape_sql_string(name), name);
    }
}

#[test]
fn escaping_adds_one_character_per_quote_or_backslash() {
    for s in ["", "plain", "it's", "a\\b", "''\\\\'"] {
        let specials = s.chars().filter(|c| *c == '\'' || *c == '\\').count();
        assert_eq!(escape_sql_string(s).chars().count(), s.chars().count() + specials);
    }
}

#[test]
fn acceptance_follows_the_bytes_and_not_the_kind() {
    for (name, ok) in [("a", true), ("_9", true), ("9a", false), ("é", false), ("a b", false)] {
        let bytes_ok = !name.is_empty()
            && name.len() <= 63
            && name.bytes().all(|b| b.is_ascii_alphanumeric() || b == b'_')
            && !name.as_bytes()[0].is_ascii_digit();
        assert_eq!(bytes_ok, ok);
        for kind in ["schema", "catalog_name", "x"] {
            assert_eq!(validate_identifier(name, kind).is_ok(), ok);
        }
    }
}
