use refmatch::parse::{parse, ParseError};
use refmatch::types::Operation;

fn v(s: &str) -> Vec<u8> {
    s.as_bytes().to_vec()
}

#[test]
fn parse_plain_fetch_spec() {
    let r = parse(&v("refs/heads/main"), Operation::Fetch).unwrap();
    assert_eq!(r.source, Some(v("refs/heads/main")));
    assert_eq!(r.destination, None);
    assert!(!r.force);
    assert!(!r.exclude);
}

#[test]
fn parse_two_sided_spec() {
    let r = parse(&v("refs/heads/*:refs/remotes/origin/*"), Operation::Fetch).unwrap();
    assert_eq!(r.source, Some(v("refs/heads/*")));
    assert_eq!(r.destination, Some(v("refs/remotes/origin/*")));
}

#[test]
fn parse_force_marker() {
    let r = parse(&v("+refs/heads/*:refs/remotes/origin/*"), Operation::Push).unwrap();
    assert!(r.force);
    assert!(!r.exclude);
    assert_eq!(r.source, Some(v("refs/heads/*")));
}

#[test]
fn parse_exclusion_push() {
    let r = parse(&v("-refs/heads/secret"), Operation::Push).unwrap();
    assert!(r.exclude);
    assert!(!r.force);
    assert_eq!(r.source, Some(v("refs/heads/secret")));
    assert_eq!(r.destination, None);
}

#[test]
fn parse_exclusion_rejected_on_fetch() {
    let e = parse(&v("-refs/heads/secret"), Operation::Fetch).unwrap_err();
    assert_eq!(e, ParseError::NegativeNotAllowed);
}

#[test]
fn parse_exclusion_with_destination_rejected() {
    let e = parse(&v("-refs/heads/a:refs/heads/b"), Operation::Push).unwrap_err();
    assert_eq!(e, ParseError::NegativeWithDestination);
}

#[test]
fn parse_empty_rejected() {
    assert_eq!(parse(&v(""), Operation::Fetch).unwrap_err(), ParseError::Empty);
    assert_eq!(parse(&v(":"), Operation::Push).unwrap_err(), ParseError::Empty);
    assert_eq!(parse(&v("+"), Operation::Push).unwrap_err(), ParseError::Empty);
}

#[test]
fn parse_double_marker_rejected() {
    assert_eq!(parse(&v("+-a"), Operation::Push).unwrap_err(), ParseError::InvalidPrefix);
    assert_eq!(parse(&v("++a"), Operation::Push).unwrap_err(), ParseError::InvalidPrefix);
}

#[test]
fn parse_fetch_without_source_rejected() {
    let e = parse(&v(":refs/heads/main"), Operation::Fetch).unwrap_err();
    assert_eq!(e, ParseError::MissingSource);
}

#[test]
fn parse_push_delete_spec() {
    let r = parse(&v(":refs/heads/main"), Operation::Push).unwrap();
    assert_eq!(r.source, None);
    assert_eq!(r.destination, Some(v("refs/heads/main")));
}

#[test]
fn parse_two_wildcards_rejected() {
    let e = parse(&v("refs/*/a*:refs/*"), Operation::Fetch).unwrap_err();
    assert_eq!(e, ParseError::MultipleWildcards);
}

#[test]
fn parse_wildcard_mismatch_rejected() {
    assert_eq!(
        parse(&v("refs/heads/*:refs/heads/main"), Operation::Fetch).unwrap_err(),
        ParseError::WildcardMismatch
    );
    assert_eq!(
        parse(&v("refs/heads/main:refs/heads/*"), Operation::Fetch).unwrap_err(),
        ParseError::WildcardMismatch
    );
}

#[test]
fn parse_wildcard_source_alone_allowed() {
    let r = parse(&v("refs/heads/*"), Operation::Fetch).unwrap();
    assert_eq!(r.source, Some(v("refs/heads/*")));
    assert_eq!(r.destination, None);
}

#[test]
fn parse_object_id_source_accepted() {
    let hex: String = "e".repeat(40);
    let r = parse(&v(&hex), Operation::Fetch).unwrap();
    assert_eq!(r.source, Some(v(&hex)));
    assert_eq!(r.destination, None);
}

#[test]
fn parse_empty_destination_side_is_absent() {
    let r = parse(&v("refs/heads/main:"), Operation::Push).unwrap();
    assert_eq!(r.source, Some(v("refs/heads/main")));
    assert_eq!(r.destination, None);
}
