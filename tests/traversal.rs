use std::collections::HashMap;

use cratedeps::traversal::{Dependency, DependencyKind, Step, Traversal};
use cratedeps::version::ResolveError;

#[derive(Default)]
struct Registry {
    versions: HashMap<String, Vec<String>>,
    deps: HashMap<(String, String), Vec<(String, String, DependencyKind)>>,
}

impl Registry {
    fn versions(&mut self, name: &str, vs: &[&str]) {
        self.versions.insert(name.to_string(), vs.iter().map(|s| s.to_string()).collect());
    }

    fn depends(&mut self, name: &str, version: &str, dep: &str, req: &str, kind: DependencyKind) {
        self.deps
            .entry((name.to_string(), version.to_string()))
            .or_default()
            .push((dep.to_string(), req.to_string(), kind));
    }

    fn run(&self, root: &str, max_depth: Option<u64>) -> (Traversal, Result<(), ResolveError>) {
        let mut t = Traversal::new(root, max_depth, vec![DependencyKind::Normal, DependencyKind::Build]);
        let mut step = t.start();
        let mut steps = 0;
        loop {
            steps += 1;
            assert!(steps < 10_000, "traversal does not terminate");
            assert!(t.room_left());
            step = match step {
                Step::FetchVersions { name } => {
                    t.supply_versions(self.versions.get(&name).cloned().unwrap_or_default())
                }
                Step::FetchDependencies { name, version } => {
                    let list = self
                        .deps
                        .get(&(name, version))
                        .map(|ds| {
                            ds.iter()
                                .map(|(n, r, k)| Dependency {
                                    name: n.clone(),
                                    requirement: r.clone(),
                                    kind: *k,
                                })
                                .collect()
                        })
                        .unwrap_or_default();
                    t.supply_dependencies(list)
                }
                Step::Done => return (t, Ok(())),
                Step::Failed { error } => return (t, Err(error)),
            };
        }
    }
}

fn labels(t: &Traversal) -> Vec<String> {
    t.labels()
}

#[test]
fn leaf_crate_gives_one_vertex() {
    let mut r = Registry::default();
    r.versions("foo", &["0.1.0", "0.2.0"]);
    let (t, res) = r.run("foo", None);
    assert!(res.is_ok());
    assert_eq!(labels(&t), vec!["foo - 0.2.0".to_string()]);
    assert_eq!(t.edge_list(), vec![]);
}

#[test]
fn shared_dependency_gives_one_vertex() {
    let mut r = Registry::default();
    r.versions("a", &["1.0.0"]);
    r.versions("b", &["1.0.0"]);
    r.versions("c", &["1.0.0"]);
    r.versions("d", &["1.0.0", "1.1.0"]);
    r.depends("a", "1.0.0", "b", "^1", DependencyKind::Normal);
    r.depends("a", "1.0.0", "c", "^1", DependencyKind::Normal);
    r.depends("b", "1.0.0", "d", "^1", DependencyKind::Normal);
    r.depends("c", "1.0.0", "d", "^1.1", DependencyKind::Normal);
    let (t, res) = r.run("a", None);
    assert!(res.is_ok());
    assert_eq!(
        labels(&t),
        vec!["a - 1.0.0", "b - 1.0.0", "d - 1.1.0", "c - 1.0.0"]
            .into_iter()
            .map(String::from)
            .collect::<Vec<_>>()
    );
    assert_eq!(t.edge_list(), vec![(0, 1), (1, 2), (0, 3), (3, 2)]);
}

#[test]
fn cycle_terminates_with_two_edges() {
    let mut r = Registry::default();
    r.versions("a", &["1.0.0"]);
    r.versions("b", &["1.0.0"]);
    r.depends("a", "1.0.0", "b", "^1", DependencyKind::Normal);
    r.depends("b", "1.0.0", "a", "^1", DependencyKind::Normal);
    let (t, res) = r.run("a", None);
    assert!(res.is_ok());
    assert_eq!(labels(&t), vec!["a - 1.0.0".to_string(), "b - 1.0.0".to_string()]);
    assert_eq!(t.edge_list(), vec![(0, 1), (1, 0)]);
}

#[test]
fn depth_bound_stops_expansion() {
    let mut r = Registry::default();
    r.versions("foo", &["1.0.0"]);
    r.versions("bar", &["1.0.0"]);
    r.versions("baz", &["1.0.0"]);
    r.depends("foo", "1.0.0", "bar", "^1", DependencyKind::Normal);
    r.depends("bar", "1.0.0", "baz", "^1", DependencyKind::Normal);
    let (t, res) = r.run("foo", Some(1));
    assert!(res.is_ok());
    assert_eq!(labels(&t), vec!["foo - 1.0.0".to_string(), "bar - 1.0.0".to_string()]);
    assert_eq!(t.edge_list(), vec![(0, 1)]);
}

#[test]
fn depth_bound_zero_gives_empty_graph() {
    let mut r = Registry::default();
    r.versions("foo", &["1.0.0"]);
    let (t, res) = r.run("foo", Some(0));
    assert!(res.is_ok());
    assert!(labels(&t).is_empty());
}

#[test]
fn end_to_end_graph() {
    let mut r = Registry::default();
    r.versions("foo", &["1.0.0"]);
    r.versions("bar", &["2.0.0", "2.1.0", "3.0.0"]);
    r.depends("foo", "1.0.0", "bar", "^2.0", DependencyKind::Normal);
    let (t, res) = r.run("foo", None);
    assert!(res.is_ok());
    assert_eq!(labels(&t), vec!["foo - 1.0.0".to_string(), "bar - 2.1.0".to_string()]);
    assert_eq!(t.edge_list(), vec![(0, 1)]);
    let dot = t.to_dot();
    assert!(dot.starts_with("digraph"));
    assert!(dot.contains("foo - 1.0.0"));
    assert!(dot.contains("bar - 2.1.0"));
    assert!(dot.contains("0 -> 1"));
}

#[test]
fn dev_dependencies_are_not_followed() {
    let mut r = Registry::default();
    r.versions("foo", &["1.0.0"]);
    r.versions("bar", &["1.0.0"]);
    r.versions("tester", &["1.0.0"]);
    r.depends("foo", "1.0.0", "tester", "^1", DependencyKind::Dev);
    r.depends("foo", "1.0.0", "bar", "^1", DependencyKind::Build);
    let (t, res) = r.run("foo", None);
    assert!(res.is_ok());
    assert_eq!(labels(&t), vec!["foo - 1.0.0".to_string(), "bar - 1.0.0".to_string()]);
}

#[test]
fn repeated_declaration_adds_one_edge() {
    let mut r = Registry::default();
    r.versions("foo", &["1.0.0"]);
    r.versions("bar", &["1.0.0"]);
    r.depends("foo", "1.0.0", "bar", "^1", DependencyKind::Normal);
    r.depends("foo", "1.0.0", "bar", "=1.0.0", DependencyKind::Build);
    let (t, res) = r.run("foo", None);
    assert!(res.is_ok());
    assert_eq!(t.edge_list(), vec![(0, 1)]);
}

#[test]
fn unresolvable_dependency_fails_the_run() {
    let mut r = Registry::default();
    r.versions("foo", &["1.0.0"]);
    r.versions("bar", &["1.0.0"]);
    r.depends("foo", "1.0.0", "bar", "^5", DependencyKind::Normal);
    let (_, res) = r.run("foo", None);
    assert!(matches!(res, Err(ResolveError::NoMatchingVersion { .. })));
}

#[test]
fn malformed_requirement_fails_the_run() {
    let mut r = Registry::default();
    r.versions("foo", &["1.0.0"]);
    r.versions("bar", &["1.0.0"]);
    r.depends("foo", "1.0.0", "bar", ">>1", DependencyKind::Normal);
    let (_, res) = r.run("foo", None);
    assert!(matches!(res, Err(ResolveError::RequirementParse { .. })));
}

#[test]
fn unknown_root_fails_the_run() {
    let r = Registry::default();
    let (t, res) = r.run("nothing", None);
    assert!(matches!(res, Err(ResolveError::UnknownCrate { .. })));
    assert!(labels(&t).is_empty());
}
