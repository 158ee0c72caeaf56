use refmatch::group::MatchGroup;
use refmatch::namer::NamerConfig;
use refmatch::oid::Oid;
use refmatch::parse::parse;
use refmatch::types::{Mapping, Operation, RemoteItem, RemoteRef};

fn v(s: &str) -> Vec<u8> {
    s.as_bytes().to_vec()
}

fn config() -> NamerConfig {
    NamerConfig::new(vec![v("v0.")], v("origin/"))
}

fn oid(c: char) -> Oid {
    Oid::from_hex(&v(&c.to_string().repeat(40))).unwrap()
}

fn group(op: Operation, specs: &[&str]) -> MatchGroup {
    let mut g = MatchGroup::new(op, config());
    for s in specs {
        g.add(parse(&v(s), op).unwrap());
    }
    g
}

fn item(name: &str, target: char, peeled: Option<char>) -> RemoteItem {
    RemoteItem { full_ref_name: v(name), target: oid(target), tag: peeled.map(oid) }
}

fn remote_of(m: &Mapping) -> Vec<u8> {
    match &m.remote {
        RemoteRef::Name(n) => n.clone(),
        RemoteRef::ObjectId(o) => o.hex.clone(),
    }
}

#[test]
fn matching_is_deterministic() {
    let g = group(Operation::Fetch, &["refs/heads/*:refs/remotes/origin/*", "v0.1"]);
    let items = vec![
        item("refs/heads/main", 'a', None),
        item("refs/tags/v0.1", 'b', Some('a')),
        item("refs/heads/dev", 'c', None),
    ];
    let first = g.match_items(&items);
    let second = g.match_items(&items);
    assert_eq!(first, second);
}

#[test]
fn wildcard_round_trip() {
    let g = group(Operation::Fetch, &["refs/heads/*:refs/remotes/origin/*"]);
    let items = vec![item("refs/heads/main", 'a', None)];
    let out = g.match_items(&items);
    assert_eq!(out.len(), 1);
    assert_eq!(remote_of(&out[0]), v("refs/heads/main"));
    assert_eq!(out[0].local, Some(v("refs/remotes/origin/main")));
}

#[test]
fn wildcard_needs_nonempty_middle() {
    let g = group(Operation::Fetch, &["refs/heads/*:refs/remotes/origin/*"]);
    let items = vec![item("refs/heads/", 'a', None)];
    assert!(g.match_items(&items).is_empty());
}

#[test]
fn exact_spec_without_destination_fetch() {
    let g = group(Operation::Fetch, &["main"]);
    let items = vec![item("refs/heads/main", 'a', None)];
    let out = g.match_items(&items);
    assert_eq!(out.len(), 1);
    assert_eq!(remote_of(&out[0]), v("refs/heads/main"));
    assert_eq!(out[0].local, None);
}

#[test]
fn exact_spec_without_destination_push() {
    let g = group(Operation::Push, &["main"]);
    let items = vec![item("refs/heads/main", 'a', None)];
    let out = g.match_items(&items);
    assert_eq!(out.len(), 1);
    assert_eq!(remote_of(&out[0]), v("refs/heads/main"));
    assert_eq!(out[0].local, None);
}

#[test]
fn fetch_head_destination_writes_no_local_ref() {
    let g = group(Operation::Fetch, &["main:FETCH_HEAD"]);
    let items = vec![item("refs/heads/main", 'a', None)];
    let out = g.match_items(&items);
    assert_eq!(out.len(), 1);
    assert_eq!(out[0].local, None);
}

#[test]
fn object_id_source_matches_without_items() {
    let hex = "e".repeat(40);
    let g = group(Operation::Fetch, &[hex.as_str()]);
    let out = g.match_items(&Vec::new());
    assert_eq!(out.len(), 1);
    assert_eq!(out[0].remote, RemoteRef::ObjectId(Oid::from_hex(&v(&hex)).unwrap()));
    assert_eq!(out[0].local, None);
}

#[test]
fn object_id_source_ignores_items() {
    let hex = "e".repeat(40);
    let g = group(Operation::Fetch, &[hex.as_str()]);
    let items = vec![item("refs/heads/main", 'a', None), item("refs/heads/dev", 'b', None)];
    let out = g.match_items(&items);
    assert_eq!(out.len(), 1);
    assert_eq!(remote_of(&out[0]), v(&hex));
}

#[test]
fn object_id_source_with_destination() {
    let hex = "d".repeat(40);
    let spec = format!("{}:refs/heads/incoming", hex);
    let g = group(Operation::Fetch, &[spec.as_str()]);
    let out = g.match_items(&Vec::new());
    assert_eq!(out.len(), 1);
    assert_eq!(remote_of(&out[0]), v(&hex));
    assert_eq!(out[0].local, Some(v("refs/heads/incoming")));
}

#[test]
fn exclusion_removes_matches_on_push() {
    let g = group(Operation::Push, &["refs/heads/*:refs/heads/*", "-refs/heads/secret"]);
    let items = vec![item("refs/heads/secret", 'a', None), item("refs/heads/main", 'b', None)];
    let out = g.match_items(&items);
    assert_eq!(out.len(), 1);
    assert_eq!(remote_of(&out[0]), v("refs/heads/main"));
    assert_eq!(out[0].local, Some(v("refs/heads/main")));
}

#[test]
fn duplicate_destination_earliest_spec_wins() {
    let g = group(
        Operation::Fetch,
        &["refs/heads/main:refs/heads/dest", "refs/heads/other:refs/heads/dest"],
    );
    let items = vec![item("refs/heads/other", 'a', None), item("refs/heads/main", 'b', None)];
    let out = g.match_items(&items);
    assert_eq!(out.len(), 1);
    assert_eq!(remote_of(&out[0]), v("refs/heads/main"));
    assert_eq!(out[0].local, Some(v("refs/heads/dest")));
}

#[test]
fn tag_autofollow_adds_unmatched_tag() {
    let g = group(Operation::Fetch, &["refs/heads/main"]);
    let items = vec![
        item("refs/heads/main", 'a', None),
        item("refs/tags/v0.5", 'b', Some('a')),
    ];
    let out = g.match_items(&items);
    assert_eq!(out.len(), 2);
    assert_eq!(remote_of(&out[0]), v("refs/heads/main"));
    assert_eq!(remote_of(&out[1]), v("refs/tags/v0.5"));
    assert_eq!(out[1].local, Some(v("refs/tags/v0.5")));
}

#[test]
fn tag_with_unrelated_target_is_not_followed() {
    let g = group(Operation::Fetch, &["refs/heads/main"]);
    let items = vec![
        item("refs/heads/main", 'a', None),
        item("refs/tags/v0.5", 'b', Some('c')),
    ];
    let out = g.match_items(&items);
    assert_eq!(out.len(), 1);
    assert_eq!(remote_of(&out[0]), v("refs/heads/main"));
}

#[test]
fn no_autofollow_on_push() {
    let g = group(Operation::Push, &["refs/heads/main"]);
    let items = vec![
        item("refs/heads/main", 'a', None),
        item("refs/tags/v0.5", 'b', Some('a')),
    ];
    let out = g.match_items(&items);
    assert_eq!(out.len(), 1);
    assert_eq!(remote_of(&out[0]), v("refs/heads/main"));
}

#[test]
fn no_match_yields_empty_result() {
    let g = group(Operation::Fetch, &["refs/heads/nothere"]);
    let items = vec![item("refs/heads/main", 'a', None)];
    assert!(g.match_items(&items).is_empty());
}

#[test]
fn result_keeps_spec_then_item_order() {
    let g = group(
        Operation::Fetch,
        &["refs/tags/*:refs/tags/*", "refs/heads/*:refs/remotes/origin/*"],
    );
    let items = vec![
        item("refs/heads/dev", 'a', None),
        item("refs/tags/v0.1", 'b', Some('d')),
        item("refs/heads/main", 'c', None),
    ];
    let out = g.match_items(&items);
    let remotes: Vec<Vec<u8>> = out.iter().map(remote_of).collect();
    assert_eq!(
        remotes,
        vec![v("refs/tags/v0.1"), v("refs/heads/dev"), v("refs/heads/main")]
    );
}

#[test]
fn exclusion_pattern_with_wildcard() {
    let g = group(Operation::Push, &["refs/*:refs/*", "-refs/heads/*"]);
    let items = vec![
        item("refs/heads/main", 'a', None),
        item("refs/tags/v0.2", 'b', None),
        item("refs/heads/dev", 'c', None),
    ];
    let out = g.match_items(&items);
    assert_eq!(out.len(), 1);
    assert_eq!(remote_of(&out[0]), v("refs/tags/v0.2"));
}

#[test]
fn exclusion_token_is_qualified_like_a_remote_name() {
    let g = group(Operation::Push, &["refs/heads/*:refs/heads/*", "-secret"]);
    let items = vec![item("refs/heads/secret", 'a', None), item("refs/heads/main", 'b', None)];
    let out = g.match_items(&items);
    assert_eq!(out.len(), 1);
    assert_eq!(remote_of(&out[0]), v("refs/heads/main"));
}

#[test]
fn mappings_without_local_ref_are_never_deduplicated() {
    let g = group(Operation::Fetch, &["refs/heads/main", "refs/heads/dev"]);
    let items = vec![item("refs/heads/main", 'a', None), item("refs/heads/dev", 'b', None)];
    let out = g.match_items(&items);
    assert_eq!(out.len(), 2);
    assert_eq!(out[0].local, None);
    assert_eq!(out[1].local, None);
}

#[test]
fn bare_branch_spec_matches_qualified_item() {
    let g = group(Operation::Fetch, &["main:origin/main"]);
    let items = vec![item("refs/heads/main", 'a', None)];
    let out = g.match_items(&items);
    assert_eq!(out.len(), 1);
    assert_eq!(remote_of(&out[0]), v("refs/heads/main"));
    assert_eq!(out[0].local, Some(v("refs/remotes/origin/main")));
}
