use crateplace::deps::{
    get_depkind, get_deps, text_lt, CrateVersion, DepKind, DepsError, Metadata, NodeDep,
    PackageDependency, PackageInfo, ResolveNode,
};

fn package(id: &str, name: &str, deps: Vec<(&str, bool)>, proc_macro: bool) -> PackageInfo {
    PackageInfo {
        id: id.to_string(),
        name: name.to_string(),
        version: CrateVersion { major: 1, minor: 2, patch: 3 },
        dependencies: deps
            .into_iter()
            .map(|(n, dev)| PackageDependency { name: n.to_string(), dev_or_build: dev })
            .collect(),
        proc_macro,
    }
}

fn node(id: &str, deps: Vec<(&str, &str)>) -> ResolveNode {
    ResolveNode {
        id: id.to_string(),
        deps: deps
            .into_iter()
            .map(|(n, p)| NodeDep { name: n.to_string(), pkg: p.to_string() })
            .collect(),
    }
}

fn sample_metadata() -> Metadata {
    Metadata {
        root: Some("zeta 1".to_string()),
        packages: vec![
            package("zeta 1", "zeta", vec![("alpha", false), ("tester", true), ("derive", false)], false),
            package("alpha 1", "alpha", vec![], false),
            package("tester 1", "tester", vec![], false),
            package("derive 1", "derive", vec![], true),
        ],
        resolve: Some(vec![
            node("zeta 1", vec![("alpha", "alpha 1"), ("tester", "tester 1"), ("derive", "derive 1")]),
            node("alpha 1", vec![]),
            node("tester 1", vec![]),
            node("derive 1", vec![]),
        ]),
    }
}

#[test]
fn get_deps_builds_tree_in_id_order() {
    let tree = get_deps(&sample_metadata()).unwrap();
    assert_eq!(tree.root, "zeta 1");
    let ids: Vec<&str> = tree.crates.iter().map(|(id, _)| id.as_str()).collect();
    assert_eq!(ids, vec!["alpha 1", "derive 1", "tester 1", "zeta 1"]);
    assert!(tree.crates.iter().all(|(_, c)| c.assignment.is_none()));
    let zeta = &tree.crates[3].1;
    assert_eq!(zeta.name, "zeta");
    assert_eq!(zeta.version, CrateVersion { major: 1, minor: 2, patch: 3 });
    let kinds: Vec<(String, DepKind)> =
        zeta.dependencies.iter().map(|d| (d.id.clone(), d.kind)).collect();
    assert_eq!(
        kinds,
        vec![
            ("alpha 1".to_string(), DepKind::Normal),
            ("tester 1".to_string(), DepKind::Dev),
            ("derive 1".to_string(), DepKind::Dev),
        ]
    );
}

#[test]
fn get_deps_keeps_the_last_node_of_an_id() {
    let mut meta = sample_metadata();
    if let Some(nodes) = &mut meta.resolve {
        nodes.push(node("alpha 1", vec![("tester", "tester 1")]));
    }
    let tree = get_deps(&meta).unwrap();
    assert_eq!(tree.crates.len(), 4);
    assert_eq!(tree.crates[0].1.dependencies.len(), 1);
}

#[test]
fn get_deps_needs_a_root() {
    let mut meta = sample_metadata();
    meta.root = None;
    assert!(matches!(get_deps(&meta), Err(DepsError::Noroot)));
}

#[test]
fn get_deps_needs_a_resolved_graph() {
    let mut meta = sample_metadata();
    meta.resolve = None;
    assert!(matches!(get_deps(&meta), Err(DepsError::NoDeps)));
}

#[test]
fn get_deps_needs_every_package() {
    let mut meta = sample_metadata();
    meta.packages.remove(2);
    assert!(matches!(get_deps(&meta), Err(DepsError::CrateNotFound(id)) if id == "tester 1"));
}

#[test]
fn depkind_follows_first_declaration() {
    let meta = sample_metadata();
    let zeta = &meta.packages[0];
    let d = NodeDep { name: "alpha".to_string(), pkg: "alpha 1".to_string() };
    assert_eq!(get_depkind(&d, &meta.packages, zeta), DepKind::Normal);
    let mut twice = zeta.clone();
    twice.dependencies.insert(0, PackageDependency { name: "alpha".to_string(), dev_or_build: false });
    twice.dependencies.push(PackageDependency { name: "alpha".to_string(), dev_or_build: true });
    assert_eq!(get_depkind(&d, &meta.packages, &twice), DepKind::Normal);
}

#[test]
fn text_order_is_character_order() {
    let s = |x: &str| x.to_string();
    assert!(text_lt(&s("abc"), &s("abd")));
    assert!(text_lt(&s("ab"), &s("abc")));
    assert!(!text_lt(&s("abc"), &s("ab")));
    assert!(!text_lt(&s("abc"), &s("abc")));
    assert!(text_lt(&s(""), &s("a")));
    assert!(text_lt(&s("Z"), &s("a")));
}
