use cratedeps::graph::{new_graph, node_name, NodeStore};
use cratedeps::version::{fetch_compatible_version, fetch_latest_version, ResolveError};

fn strings(vs: &[&str]) -> Vec<String> {
    vs.iter().map(|s| s.to_string()).collect()
}

#[test]
fn resolve_picks_greatest_match() {
    let vs = strings(&["1.0.0", "1.2.0", "2.0.0"]);
    let v = fetch_compatible_version("bar", "^1", &vs).unwrap();
    assert_eq!(v, "1.2.0");
}

#[test]
fn resolve_order_of_listing_does_not_matter() {
    let vs = strings(&["2.1.0", "3.0.0", "2.0.0"]);
    let v = fetch_compatible_version("bar", "^2.0", &vs).unwrap();
    assert_eq!(v, "2.1.0");
}

#[test]
fn resolve_compares_by_precedence_not_text() {
    let vs = strings(&["1.9.0", "1.10.0", "1.2.0"]);
    assert_eq!(fetch_compatible_version("bar", "^1", &vs).unwrap(), "1.10.0");
    assert_eq!(fetch_latest_version("bar", &vs).unwrap(), "1.10.0");
}

#[test]
fn resolve_skips_malformed_versions() {
    let vs = strings(&["1.0.0", "not a version", "1.1.0"]);
    assert_eq!(fetch_compatible_version("bar", "^1", &vs).unwrap(), "1.1.0");
}

#[test]
fn resolve_bad_requirement() {
    let vs = strings(&["1.0.0"]);
    match fetch_compatible_version("bar", "not a requirement", &vs) {
        Err(ResolveError::RequirementParse { requirement }) => {
            assert_eq!(requirement, "not a requirement")
        }
        other => panic!("unexpected {:?}", other),
    }
}

#[test]
fn resolve_no_matching_version() {
    let vs = strings(&["1.0.0", "1.2.0"]);
    match fetch_compatible_version("bar", "^3", &vs) {
        Err(ResolveError::NoMatchingVersion { name, requirement }) => {
            assert_eq!(name, "bar");
            assert_eq!(requirement, "^3");
        }
        other => panic!("unexpected {:?}", other),
    }
}

#[test]
fn resolve_no_versions_at_all() {
    let vs: Vec<String> = Vec::new();
    assert!(matches!(
        fetch_compatible_version("bar", "*", &vs),
        Err(ResolveError::NoMatchingVersion { .. })
    ));
}

#[test]
fn latest_ignores_malformed_entry() {
    let vs = strings(&["0.3.1", "x.y.z", "0.4.0"]);
    assert_eq!(fetch_latest_version("foo", &vs).unwrap(), "0.4.0");
}

#[test]
fn latest_prefers_release_over_prerelease() {
    let vs = strings(&["1.0.0-beta.2", "1.0.0", "1.0.0-alpha"]);
    assert_eq!(fetch_latest_version("foo", &vs).unwrap(), "1.0.0");
}

#[test]
fn latest_unknown_crate() {
    let vs = strings(&["garbage", ""]);
    match fetch_latest_version("foo", &vs) {
        Err(ResolveError::UnknownCrate { name }) => assert_eq!(name, "foo"),
        other => panic!("unexpected {:?}", other),
    }
    assert!(matches!(
        fetch_latest_version("foo", &Vec::new()),
        Err(ResolveError::UnknownCrate { .. })
    ));
}

#[test]
fn node_name_format() {
    assert_eq!(node_name("serde", "1.0.0"), "serde - 1.0.0");
    assert_eq!(node_name("", ""), " - ");
}

#[test]
fn node_store_get_is_idempotent() {
    let mut g = new_graph();
    let mut store = NodeStore::new();
    let a = store.get(node_name("foo", "1.0.0"), &mut g);
    let b = store.get(node_name("bar", "2.0.0"), &mut g);
    let a2 = store.get(node_name("foo", "1.0.0"), &mut g);
    assert_eq!(a, 0);
    assert_eq!(b, 1);
    assert_eq!(a, a2);
    assert_eq!(store.len(), 2);
    assert_eq!(g.node_count(), 2);
    assert_eq!(store.labels(), vec!["foo - 1.0.0".to_string(), "bar - 2.0.0".to_string()]);
}
