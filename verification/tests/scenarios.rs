//! Concrete end-to-end scenarios: each directive's rendered output.

use variadics_please::all_tuples;
use variadics_please::all_tuples_enumerated;
use variadics_please::all_tuples_with_size;
use variadics_please::DirectiveError;
use variadics_please::Token;

fn ident(s: &str) -> Token {
    Token::Ident(s.to_string())
}

fn num(s: &str) -> Token {
    Token::Integer(s.to_string())
}

fn collapse_marker() -> Token {
    Token::Marker {
        path: "doc".to_string(),
        arg: Some("fake_variadic".to_string()),
    }
}

fn directive(name: &str, start: &str, end: &str, prefixes: &[&str]) -> Vec<Token> {
    let mut toks = vec![
        ident(name),
        Token::Comma,
        num(start),
        Token::Comma,
        num(end),
        Token::Comma,
    ];
    for (i, p) in prefixes.iter().enumerate() {
        if i > 0 {
            toks.push(Token::Comma);
        }
        toks.push(ident(p));
    }
    toks
}

fn collapse_directive(name: &str, start: &str, end: &str, prefixes: &[&str]) -> Vec<Token> {
    let mut toks = vec![collapse_marker()];
    toks.extend(directive(name, start, end, prefixes));
    toks
}

#[test]
fn plain_single_prefix() {
    let toks = directive("foo", "0", "2", &["T"]);
    let out = all_tuples(&toks).unwrap();
    assert_eq!(out, "foo!();\nfoo!(T0);\nfoo!(T0, T1);");
}

#[test]
fn plain_two_prefixes() {
    let toks = directive("bar", "0", "2", &["T", "U"]);
    let out = all_tuples(&toks).unwrap();
    assert_eq!(out, "bar!();\nbar!((T0, U0));\nbar!((T0, U0), (T1, U1));");
}

#[test]
fn with_size_single_prefix() {
    let toks = directive("foo", "1", "2", &["T"]);
    let out = all_tuples_with_size(&toks).unwrap();
    assert_eq!(out, "foo!(1, T0);\nfoo!(2, T0, T1);");
}

#[test]
fn enumerated_single_prefix() {
    let toks = directive("foo", "0", "1", &["T"]);
    let out = all_tuples_enumerated(&toks).unwrap();
    assert_eq!(out, "foo!();\nfoo!((0, T0));");
}

#[test]
fn collapse_single_prefix() {
    let toks = collapse_directive("foo", "0", "2", &["T"]);
    let out = all_tuples(&toks).unwrap();
    let expected = "foo!();\nfoo!(#[cfg_attr(any(docsrs, docsrs_dep), doc(fake_variadic))] #[cfg_attr(any(docsrs, docsrs_dep), doc = \"This trait is implemented for tuples up to 3 items long.\")] T);\nfoo!(#[cfg_attr(any(docsrs, docsrs_dep), doc(hidden))] T0, T1);";
    assert_eq!(out, expected);
}

#[test]
fn collapse_rejected_when_start_above_one() {
    let toks = collapse_directive("foo", "2", "3", &["T"]);
    assert_eq!(all_tuples(&toks), Err(DirectiveError::InvalidCollapseRange));
    assert_eq!(
        all_tuples_enumerated(&toks),
        Err(DirectiveError::InvalidCollapseRange)
    );
    assert_eq!(
        all_tuples_with_size(&toks),
        Err(DirectiveError::InvalidCollapseRange)
    );
}

#[test]
fn degenerate_range_renders_nothing() {
    let toks = directive("foo", "3", "2", &["T"]);
    assert_eq!(all_tuples(&toks).unwrap(), "");
    assert_eq!(all_tuples_enumerated(&toks).unwrap(), "");
    assert_eq!(all_tuples_with_size(&toks).unwrap(), "");
}

#[test]
fn rerunning_is_byte_identical() {
    let toks = collapse_directive("foo", "0", "9", &["A", "b", "C"]);
    let first = all_tuples(&toks).unwrap();
    let second = all_tuples(&toks).unwrap();
    assert_eq!(first, second);
    let third = all_tuples_enumerated(&toks).unwrap();
    let fourth = all_tuples_enumerated(&toks).unwrap();
    assert_eq!(third, fourth);
}

#[test]
fn enumerated_two_prefixes() {
    let toks = directive("baz", "1", "2", &["P", "p"]);
    let out = all_tuples_enumerated(&toks).unwrap();
    assert_eq!(out, "baz!((0, P0, p0));\nbaz!((0, P0, p0), (1, P1, p1));");
}

#[test]
fn multi_digit_positions_and_sizes() {
    let toks = directive("foo", "11", "11", &["T"]);
    let out = all_tuples_with_size(&toks).unwrap();
    assert_eq!(
        out,
        "foo!(11, T0, T1, T2, T3, T4, T5, T6, T7, T8, T9, T10);"
    );
}

#[test]
fn with_size_zero_arity_keeps_size() {
    let toks = directive("foo", "0", "1", &["T"]);
    let out = all_tuples_with_size(&toks).unwrap();
    assert_eq!(out, "foo!(0,);\nfoo!(1, T0);");
}
