//! Structured emissions: arity coverage, shapes, sizes and annotations,
//! over split ranges, several prefixes, and the collapse marker.

use variadics_please::expand;
use variadics_please::parse_directive;
use variadics_please::Annotation;
use variadics_please::DirectiveError;
use variadics_please::Emission;
use variadics_please::Mode;
use variadics_please::Token;

fn ident(s: &str) -> Token {
    Token::Ident(s.to_string())
}

fn num(s: &str) -> Token {
    Token::Integer(s.to_string())
}

fn collapse_marker() -> Token {
    Token::Marker {
        path: "doc".to_string(),
        arg: Some("fake_variadic".to_string()),
    }
}

fn directive(collapse: bool, name: &str, start: &str, end: &str, prefixes: &[&str]) -> Vec<Token> {
    let mut toks = Vec::new();
    if collapse {
        toks.push(collapse_marker());
    }
    toks.push(ident(name));
    toks.push(Token::Comma);
    toks.push(num(start));
    toks.push(Token::Comma);
    toks.push(num(end));
    toks.push(Token::Comma);
    for (i, p) in prefixes.iter().enumerate() {
        if i > 0 {
            toks.push(Token::Comma);
        }
        toks.push(ident(p));
    }
    toks
}

fn emissions(collapse: bool, name: &str, start: &str, end: &str, prefixes: &[&str], mode: Mode) -> Vec<Emission> {
    let toks = directive(collapse, name, start, end, prefixes);
    let req = parse_directive(&toks).unwrap();
    expand(&req, mode)
}

/// The arities a plain expansion covers, read off the slot counts.
fn covered_arities(out: &[Emission]) -> Vec<usize> {
    out.iter().map(|e| e.slots.len()).collect()
}

#[test]
fn basic_all_tuples_basic_test() {
    // Ranges [0, 2] and [4, 5]: arities 3 and 6 are never emitted.
    let low = emissions(false, "foo", "0", "2", &["T"], Mode::Plain);
    let high = emissions(false, "foo", "4", "5", &["T"], Mode::Plain);
    assert_eq!(covered_arities(&low), vec![0, 1, 2]);
    assert_eq!(covered_arities(&high), vec![4, 5]);
    let mut all = covered_arities(&low);
    all.extend(covered_arities(&high));
    assert!(!all.contains(&3));
    assert!(!all.contains(&6));

    // The same ranges with two prefixes: every slot pairs the prefixes.
    let low = emissions(false, "bar", "0", "2", &["T", "U"], Mode::Plain);
    let high = emissions(false, "bar", "4", "5", &["T", "U"], Mode::Plain);
    assert_eq!(covered_arities(&low), vec![0, 1, 2]);
    assert_eq!(covered_arities(&high), vec![4, 5]);
    for e in low.iter().chain(high.iter()) {
        for (p, slot) in e.slots.iter().enumerate() {
            assert_eq!(slot.position, None);
            assert_eq!(slot.names, vec![format!("T{p}"), format!("U{p}")]);
        }
        assert_eq!(e.annotation, Annotation::Unmarked);
        assert_eq!(e.size, None);
    }
}

#[test]
fn basic_all_tuples_with_size_basic_test() {
    // As the plain case, with the arity leading every invocation.
    let low = emissions(false, "foo", "0", "2", &["T"], Mode::WithSize);
    let high = emissions(false, "foo", "4", "5", &["T"], Mode::WithSize);
    assert_eq!(covered_arities(&low), vec![0, 1, 2]);
    assert_eq!(covered_arities(&high), vec![4, 5]);
    for e in low.iter().chain(high.iter()) {
        assert_eq!(e.size, Some(e.slots.len()));
    }

    let low = emissions(false, "bar", "0", "2", &["T", "U"], Mode::WithSize);
    let high = emissions(false, "bar", "4", "5", &["T", "U"], Mode::WithSize);
    for e in low.iter().chain(high.iter()) {
        assert_eq!(e.size, Some(e.slots.len()));
        for slot in &e.slots {
            assert_eq!(slot.names.len(), 2);
        }
    }
}

#[test]
fn fake_variadic_all_tuples_basic_test() {
    // Collapse over [0, 2]: nothing at arity zero, the collapse note at
    // arity one with the bare prefix, hiding above.
    let out = emissions(true, "foo", "0", "2", &["T"], Mode::Plain);
    assert_eq!(out.len(), 3);
    assert_eq!(out[0].annotation, Annotation::Unmarked);
    assert_eq!(out[0].slots.len(), 0);
    assert_eq!(
        out[1].annotation,
        Annotation::Collapse("This trait is implemented for tuples up to 3 items long.".to_string())
    );
    assert_eq!(out[1].slots.len(), 1);
    assert_eq!(out[1].slots[0].names, vec!["T".to_string()]);
    assert_eq!(out[2].annotation, Annotation::Hidden);
    assert_eq!(
        out[2].slots[1].names,
        vec!["T1".to_string()]
    );

    // The continuation range [4, 5] carries no marker and no annotation.
    let high = emissions(false, "foo", "4", "5", &["T"], Mode::Plain);
    for e in &high {
        assert_eq!(e.annotation, Annotation::Unmarked);
    }

    // The two-prefix variant groups the bare prefixes at arity one.
    let out = emissions(true, "bar", "0", "2", &["T", "U"], Mode::Plain);
    assert_eq!(out[1].slots.len(), 1);
    assert_eq!(
        out[1].slots[0].names,
        vec!["T".to_string(), "U".to_string()]
    );

    // A collapse marker whose range starts past one is rejected.
    let toks = directive(true, "baz", "2", "3", &["T"]);
    assert_eq!(
        parse_directive(&toks),
        Err(DirectiveError::InvalidCollapseRange)
    );
}

#[test]
fn fake_variadic_all_tuples_enumerated_basic_test() {
    // Enumerated collapse over [0, 2]: every slot is grouped and carries
    // its position; the arity-one slot keeps the bare prefix.
    let out = emissions(true, "foo", "0", "2", &["T"], Mode::Enumerated);
    assert_eq!(out.len(), 3);
    assert_eq!(out[0].slots.len(), 0);
    assert_eq!(out[1].slots.len(), 1);
    assert_eq!(out[1].slots[0].position, Some(0));
    assert_eq!(out[1].slots[0].names, vec!["T".to_string()]);
    assert_eq!(out[2].slots.len(), 2);
    for (p, slot) in out[2].slots.iter().enumerate() {
        assert_eq!(slot.position, Some(p));
        assert_eq!(slot.names, vec![format!("T{p}")]);
    }
    assert_eq!(out[2].annotation, Annotation::Hidden);

    let out = emissions(true, "bar", "0", "2", &["T", "U"], Mode::Enumerated);
    assert_eq!(out[1].slots[0].position, Some(0));
    assert_eq!(
        out[1].slots[0].names,
        vec!["T".to_string(), "U".to_string()]
    );
}

#[test]
fn fake_variadic_all_tuples_with_size_basic_test() {
    // Size-carrying collapse over [0, 2]: sizes lead every emission and
    // the annotation policy is unchanged.
    let out = emissions(true, "foo", "0", "2", &["T"], Mode::WithSize);
    assert_eq!(out.len(), 3);
    assert_eq!(out[0].size, Some(0));
    assert_eq!(out[0].annotation, Annotation::Unmarked);
    assert_eq!(out[1].size, Some(1));
    assert_eq!(
        out[1].annotation,
        Annotation::Collapse("This trait is implemented for tuples up to 3 items long.".to_string())
    );
    assert_eq!(out[1].slots[0].names, vec!["T".to_string()]);
    assert_eq!(out[2].size, Some(2));
    assert_eq!(out[2].annotation, Annotation::Hidden);

    let out = emissions(true, "bar", "0", "2", &["T", "U"], Mode::WithSize);
    assert_eq!(out[1].size, Some(1));
    assert_eq!(
        out[1].slots[0].names,
        vec!["T".to_string(), "U".to_string()]
    );
}

#[test]
fn degenerate_range_emits_nothing() {
    for mode in [Mode::Plain, Mode::Enumerated, Mode::WithSize] {
        let out = emissions(false, "foo", "7", "3", &["T"], mode);
        assert!(out.is_empty());
    }
}

#[test]
fn zero_arity_never_annotated() {
    for mode in [Mode::Plain, Mode::Enumerated, Mode::WithSize] {
        let out = emissions(true, "foo", "0", "4", &["T"], mode);
        assert_eq!(out[0].annotation, Annotation::Unmarked);
        assert_eq!(out[0].slots.len(), 0);
    }
}

#[test]
fn naming_is_prefix_and_position() {
    let out = emissions(false, "foo", "0", "6", &["Item"], Mode::Plain);
    let last = &out[6];
    for (p, slot) in last.slots.iter().enumerate() {
        assert_eq!(slot.names, vec![format!("Item{p}")]);
    }
    // Positions past nine render with several digits.
    let wide = emissions(false, "foo", "12", "12", &["T"], Mode::Plain);
    assert_eq!(wide[0].slots[11].names, vec!["T11".to_string()]);
}

#[test]
fn note_counts_arities_not_end() {
    // The note length is the count of arities in range, not the range end.
    let out = emissions(true, "foo", "1", "5", &["T"], Mode::Plain);
    assert_eq!(
        out[0].annotation,
        Annotation::Collapse("This trait is implemented for tuples up to 5 items long.".to_string())
    );
}
