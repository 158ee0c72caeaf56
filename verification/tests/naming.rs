use refmatch::namer::NamerConfig;
use refmatch::oid::Oid;
use refmatch::Kind;

fn v(s: &str) -> Vec<u8> {
    s.as_bytes().to_vec()
}

fn config() -> NamerConfig {
    NamerConfig::new(vec![v("v0.")], v("origin/"))
}

#[test]
fn remote_ref_bare_branch_is_qualified() {
    assert_eq!(config().full_remote_ref(&v("main")), v("refs/heads/main"));
}

#[test]
fn remote_ref_tag_shaped_goes_under_tags() {
    assert_eq!(config().full_remote_ref(&v("v0.3.1")), v("refs/tags/v0.3.1"));
}

#[test]
fn remote_ref_hex_id_stays_as_given() {
    let hex = "a".repeat(40);
    assert_eq!(config().full_remote_ref(&v(&hex)), v(&hex));
}

#[test]
fn remote_ref_structured_name_stays_as_given() {
    assert_eq!(config().full_remote_ref(&v("refs/heads/main")), v("refs/heads/main"));
}

#[test]
fn tracking_ref_remote_prefix_goes_under_remotes() {
    assert_eq!(config().full_tracking_ref(&v("origin/main")), v("refs/remotes/origin/main"));
}

#[test]
fn tracking_ref_tag_shaped_goes_under_tags() {
    assert_eq!(config().full_tracking_ref(&v("v0.9")), v("refs/tags/v0.9"));
}

#[test]
fn tracking_ref_other_token_stays_as_given() {
    assert_eq!(config().full_tracking_ref(&v("elsewhere")), v("elsewhere"));
}

#[test]
fn oid_accepts_full_lowercase_hex() {
    assert!(Oid::from_hex(&v(&"0123456789abcdef".repeat(4).chars().take(40).collect::<String>())).is_some());
    assert!(Oid::from_hex(&v(&"f".repeat(64))).is_some());
}

#[test]
fn oid_rejects_wrong_shapes() {
    assert!(Oid::from_hex(&v("abc")).is_none());
    assert!(Oid::from_hex(&v(&"A".repeat(40))).is_none());
    assert!(Oid::from_hex(&v(&"g".repeat(40))).is_none());
    assert!(Oid::from_hex(&v(&"a".repeat(41))).is_none());
}

#[test]
fn kind_is_bare() {
    assert!(Kind::Bare.is_bare());
    assert!(!Kind::WorkingTree.is_bare());
}
