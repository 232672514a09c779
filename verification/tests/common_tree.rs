use crateplace::assignment::{assign, AssignmentError};
use crateplace::config::{ByteUnit, Config, CratePlacement, Ram, Section};
use crateplace::deps::{Crate, CrateVersion, Dep, DepKind, DepTree};

fn krate(name: &str, minor: u64, deps: Vec<Dep>) -> Crate {
    Crate {
        name: name.to_string(),
        version: CrateVersion { major: 0, minor, patch: 0 },
        dependencies: deps,
        assignment: None,
    }
}

fn dep(id: &str, kind: DepKind) -> Dep {
    Dep { id: id.to_string(), kind }
}

fn sample_tree() -> DepTree {
    DepTree::new(
        "app 0.1.0".to_string(),
        vec![
            (
                "app 0.1.0".to_string(),
                krate(
                    "app",
                    1,
                    vec![dep("lib-a 0.3.0", DepKind::Normal), dep("dev-tool 0.2.0", DepKind::Dev)],
                ),
            ),
            ("common 1.0.0".to_string(), krate("common", 9, vec![])),
            (
                "dev-tool 0.2.0".to_string(),
                krate("dev-tool", 2, vec![dep("common 1.0.0", DepKind::Normal)]),
            ),
            (
                "lib-a 0.3.0".to_string(),
                krate("lib-a", 3, vec![dep("common 1.0.0", DepKind::Normal)]),
            ),
        ],
    )
}

fn two_sections(default_first: bool) -> Config {
    Config {
        ram: Ram::new(ByteUnit::H(0x2000_0000), ByteUnit::K(128)),
        sections: vec![
            (
                "flash".to_string(),
                Section { origin: ByteUnit::H(0), length: ByteUnit::K(512), priority: 1, default: default_first },
            ),
            (
                "second".to_string(),
                Section { origin: ByteUnit::K(512), length: ByteUnit::K(512), priority: 2, default: false },
            ),
        ],
        crates: None,
        symbols: None,
    }
}

fn placement(name: &str, section: &str, with_deps: bool) -> (String, CratePlacement) {
    (
        name.to_string(),
        CratePlacement { section: section.to_string(), include_dependencies: with_deps },
    )
}

fn section_of(tree: &DepTree, name: &str) -> Option<(String, u32, bool)> {
    let (_, c) = tree.crates.iter().find(|(_, c)| c.name == name).unwrap();
    c.assignment.as_ref().map(|a| (a.name.clone(), a.priority, a.user_assigned))
}

#[test]
fn assign_places_crate_and_its_dependencies() {
    let mut config = two_sections(false);
    config.crates = Some(vec![placement("lib-a", "second", true)]);
    let mut tree = sample_tree();
    assert!(assign(&config, &mut tree).is_ok());
    assert_eq!(section_of(&tree, "lib-a"), Some(("second".to_string(), 2, true)));
    assert_eq!(section_of(&tree, "common"), Some(("second".to_string(), 2, false)));
    assert_eq!(section_of(&tree, "app"), None);
    assert_eq!(section_of(&tree, "dev-tool"), None);
}

#[test]
fn assign_without_dependencies_places_only_the_crate() {
    let mut config = two_sections(false);
    config.crates = Some(vec![placement("lib-a", "second", false)]);
    let mut tree = sample_tree();
    assert!(assign(&config, &mut tree).is_ok());
    assert_eq!(section_of(&tree, "lib-a"), Some(("second".to_string(), 2, true)));
    assert_eq!(section_of(&tree, "common"), None);
}

#[test]
fn assign_skips_development_dependencies() {
    let mut config = two_sections(false);
    config.crates = Some(vec![placement("app", "second", true)]);
    let mut tree = sample_tree();
    assert!(assign(&config, &mut tree).is_ok());
    assert_eq!(section_of(&tree, "dev-tool"), None);
    assert_eq!(section_of(&tree, "lib-a"), Some(("second".to_string(), 2, false)));
}

#[test]
fn assign_gives_default_section_to_the_rest() {
    let mut config = two_sections(true);
    config.crates = Some(vec![placement("lib-a", "second", true)]);
    let mut tree = sample_tree();
    assert!(assign(&config, &mut tree).is_ok());
    assert_eq!(section_of(&tree, "app"), Some(("flash".to_string(), 1, false)));
    assert_eq!(section_of(&tree, "dev-tool"), Some(("flash".to_string(), 1, false)));
    assert_eq!(section_of(&tree, "lib-a"), Some(("second".to_string(), 2, true)));
}

#[test]
fn assign_without_crates_gives_every_crate_the_default() {
    let config = two_sections(true);
    let mut tree = sample_tree();
    assert!(assign(&config, &mut tree).is_ok());
    for name in ["app", "common", "dev-tool", "lib-a"] {
        assert_eq!(section_of(&tree, name), Some(("flash".to_string(), 1, false)));
    }
}

#[test]
fn assign_without_crates_or_default_changes_nothing() {
    let config = two_sections(false);
    let mut tree = sample_tree();
    assert!(assign(&config, &mut tree).is_ok());
    assert!(tree.crates.iter().all(|(_, c)| c.assignment.is_none()));
}

#[test]
fn assign_lets_the_lowest_priority_number_win_in_either_order() {
    for entries in [
        vec![placement("app", "flash", true), placement("lib-a", "second", true)],
        vec![placement("lib-a", "second", true), placement("app", "flash", true)],
    ] {
        let mut config = two_sections(false);
        config.crates = Some(entries);
        let mut tree = sample_tree();
        assert!(assign(&config, &mut tree).is_ok());
        assert_eq!(section_of(&tree, "app").unwrap().0, "flash");
        assert_eq!(section_of(&tree, "lib-a").unwrap().0, "flash");
        assert_eq!(section_of(&tree, "common").unwrap().0, "flash");
    }
}

#[test]
fn assign_reports_missing_crate() {
    let mut config = two_sections(false);
    config.crates = Some(vec![placement("nope", "flash", true)]);
    let mut tree = sample_tree();
    assert!(matches!(
        assign(&config, &mut tree),
        Err(AssignmentError::CrateNotFound(n)) if n == "nope"
    ));
}

#[test]
fn assign_reports_missing_section() {
    let mut config = two_sections(false);
    config.crates = Some(vec![placement("lib-a", "nowhere", true)]);
    let mut tree = sample_tree();
    match assign(&config, &mut tree) {
        Err(AssignmentError::SectionMissing { crate_name, section_name }) => {
            assert_eq!(crate_name, "lib-a");
            assert_eq!(section_name, "nowhere");
        }
        other => panic!("unexpected {other:?}"),
    }
}

#[test]
fn assign_reports_missing_dependency_crate() {
    let mut config = two_sections(false);
    config.crates = Some(vec![placement("lib-a", "second", true)]);
    let mut tree = sample_tree();
    tree.crates.retain(|(id, _)| id != "common 1.0.0");
    assert!(matches!(
        assign(&config, &mut tree),
        Err(AssignmentError::CrateNotFound(n)) if n == "common 1.0.0"
    ));
}

#[test]
fn assign_names_the_first_missing_crate_of_the_walk() {
    let mut config = two_sections(false);
    config.crates = Some(vec![placement("app", "second", true)]);
    let mut tree = sample_tree();
    tree.crates[0].1.dependencies = vec![
        dep("lib-a 0.3.0", DepKind::Normal),
        dep("gone-1 1.0.0", DepKind::Normal),
        dep("gone-2 1.0.0", DepKind::Normal),
    ];
    assert!(matches!(
        assign(&config, &mut tree),
        Err(AssignmentError::CrateNotFound(n)) if n == "gone-2 1.0.0"
    ));
}

fn plain_styles() -> crateplace::deps::TreeStyles {
    let e = String::new;
    crateplace::deps::TreeStyles {
        dim: e(),
        dim_end: e(),
        star: e(),
        star_end: e(),
        assign: e(),
        assign_end: e(),
        bold: e(),
        bold_end: e(),
    }
}

fn assigned_sample() -> DepTree {
    let mut config = two_sections(true);
    config.crates = Some(vec![placement("app", "flash", true)]);
    let mut tree = sample_tree();
    assign(&config, &mut tree).unwrap();
    tree
}

#[test]
fn tree_renders_from_the_root_with_dedupe() {
    let tree = assigned_sample();
    let text = tree.render(&plain_styles()).unwrap();
    assert_eq!(
        text,
        "app v0.1.0 → flash prio:1 \n\
         ├── lib-a v0.3.0 → flash\n\
         │   └── common v0.9.0 → flash\n\
         └── dev-tool v0.2.0 → flash\n    \
         └── common v0.9.0 (*) → flash\n"
    );
}

#[test]
fn tree_renders_every_occurrence_without_dedupe() {
    let mut tree = assigned_sample();
    tree.no_dedupe(true);
    let text = tree.render(&plain_styles()).unwrap();
    assert!(!text.contains("(*)"));
    assert_eq!(text.matches("common v0.9.0 → flash").count(), 2);
}

#[test]
fn tree_renders_inverted() {
    let mut tree = assigned_sample();
    tree.inverted(crateplace::deps::Inverted::Inverted("common 1.0.0".to_string()));
    let text = tree.render(&plain_styles()).unwrap();
    assert_eq!(
        text,
        "common v0.9.0 → flash\n\
         ├── dev-tool v0.2.0 → flash\n\
         │   └── app v0.1.0 → flash prio:1 \n\
         └── lib-a v0.3.0 → flash\n    \
         └── app v0.1.0 (*) → flash prio:1 \n"
    );
}

#[test]
fn tree_hides_unassigned_crates() {
    let mut config = two_sections(false);
    config.crates = Some(vec![placement("lib-a", "second", true)]);
    let mut tree = sample_tree();
    assign(&config, &mut tree).unwrap();
    tree.inverted(crateplace::deps::Inverted::Inverted("lib-a 0.3.0".to_string()));
    // lib-a is assigned; app, which depends on it, is not and is not shown
    assert_eq!(tree.render(&plain_styles()).unwrap(), "lib-a v0.3.0 → second prio:2 \n");
    tree.display_unspecified(true);
    assert_eq!(
        tree.render(&plain_styles()).unwrap(),
        "lib-a v0.3.0 → second prio:2 \n└── app v0.1.0 → unspecified\n"
    );
}

#[test]
fn tree_uses_the_given_styles() {
    let mut styles = plain_styles();
    styles.bold = "<b>".to_string();
    styles.bold_end = "</b>".to_string();
    styles.dim = "<d>".to_string();
    styles.dim_end = "</d>".to_string();
    let mut tree = sample_tree();
    tree.display_unspecified(true);
    tree.crates.truncate(2);
    tree.crates[0].1.dependencies.truncate(0);
    assert_eq!(tree.render(&styles).unwrap(), "app v0.1.0 → <d>unspecified</d>\n");
}

#[test]
fn tree_fails_on_missing_root() {
    let mut tree = sample_tree();
    tree.root = "missing 0.0.0".to_string();
    assert!(tree.render(&plain_styles()).is_none());
}

#[test]
fn take_dep_by_name_removes_first_match() {
    let mut tree = sample_tree();
    let (id, c) = tree.take_dep_by_name("lib-a").unwrap();
    assert_eq!(id, "lib-a 0.3.0");
    assert_eq!(c.name, "lib-a");
    assert_eq!(tree.get_crates().len(), 3);
    assert!(tree.take_dep_by_name("lib-a").is_none());
    assert_eq!(tree.get_root(), "app 0.1.0");
}
