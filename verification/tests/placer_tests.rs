use crateplace::config::{ByteUnit, Config, ConfigValidationError, CratePlacement, Ram, Section};
use crateplace::deps::{Crate, CrateVersion, DepTree, Inverted};
use crateplace::file_error::{FileError, IOToFileResult};
use crateplace::generation::ManglingMatches;
use crateplace::mangling::ManglingVersion;
use crateplace::validation::{BinarySymbol, DebugUnit, IgnoreList, ValidationProblem};
use crateplace::{matches_for_version, CratePlacer, CratePlacerError, FileConfig};

fn config() -> Config {
    Config {
        ram: Ram::new(ByteUnit::H(0x2000_0000), ByteUnit::K(128)),
        sections: vec![(
            "flash".to_string(),
            Section { origin: ByteUnit::H(0), length: ByteUnit::K(512), priority: 1, default: true },
        )],
        crates: Some(vec![(
            "app".to_string(),
            CratePlacement { section: "flash".to_string(), include_dependencies: true },
        )]),
        symbols: None,
    }
}

fn tree() -> DepTree {
    DepTree::new(
        "app 1".to_string(),
        vec![(
            "app 1".to_string(),
            Crate {
                name: "app".to_string(),
                version: CrateVersion { major: 1, minor: 0, patch: 0 },
                dependencies: vec![],
                assignment: None,
            },
        )],
    )
}

#[test]
fn new_placer_has_nothing_given() {
    let p = CratePlacer::new();
    assert!(p.manifest.is_none());
    assert!(p.output.is_none());
    assert!(!p.stdout);
    assert_eq!(p.config.default_file_name, "Memory.toml");
    assert_eq!(p.ignorelist.default_file_name, ".crateplace-ignore");
    assert!(p.config.config.is_none());
    let d = CratePlacer::default();
    assert!(d.pre_script.is_none() && d.post_script.is_none());
}

#[test]
fn builders_chain() {
    let mut p = CratePlacer::new();
    p.cargo_manifest("proj/Cargo.toml")
        .config_file("proj/Memory.toml")
        .output("out/memory.x")
        .ignorelist_file("proj/.ignore")
        .pre_script("pre.x")
        .post_script("post.x");
    p.stdout(true);
    assert_eq!(p.manifest.as_deref(), Some("proj/Cargo.toml"));
    assert_eq!(p.config.path.as_deref(), Some("proj/Memory.toml"));
    assert_eq!(p.output.as_deref(), Some("out/memory.x"));
    assert_eq!(p.ignorelist.path.as_deref(), Some("proj/.ignore"));
    assert_eq!(p.pre_script.as_deref(), Some("pre.x"));
    assert_eq!(p.post_script.as_deref(), Some("post.x"));
    assert!(p.stdout);
}

#[test]
fn file_config_holds_its_contents() {
    let mut f: FileConfig<u32> = FileConfig::new("x.toml");
    assert!(matches!(f.get(), Err(CratePlacerError::FailedToFindConfig(n)) if n == "x.toml"));
    f.set_path("dir/x.toml");
    f.set(7);
    assert_eq!(*f.get().unwrap(), 7);
    assert_eq!(f.path.as_deref(), Some("dir/x.toml"));
}

#[test]
fn linkerscript_needs_a_configuration() {
    let p = CratePlacer::new();
    assert!(matches!(
        p.get_linkerscript(tree(), ManglingMatches::V0),
        Err(CratePlacerError::FailedToFindConfig(n)) if n == "Memory.toml"
    ));
}

#[test]
fn linkerscript_refuses_invalid_configuration() {
    let mut p = CratePlacer::new();
    let mut c = config();
    c.sections[0].1.length = ByteUnit::B(0);
    p.config(c);
    assert!(matches!(
        p.get_linkerscript(tree(), ManglingMatches::V0),
        Err(CratePlacerError::InvalidConfig(ConfigValidationError::ZeroSection(n))) if n == "flash"
    ));
}

#[test]
fn linkerscript_reports_unknown_crates() {
    let mut p = CratePlacer::new();
    let mut c = config();
    c.crates = Some(vec![(
        "ghost".to_string(),
        CratePlacement { section: "flash".to_string(), include_dependencies: true },
    )]);
    p.config(c);
    assert!(matches!(
        p.get_linkerscript(tree(), ManglingMatches::V0),
        Err(CratePlacerError::Placement(_))
    ));
}

#[test]
fn linkerscript_places_crates() {
    let mut p = CratePlacer::new();
    p.config(config()).pre_script("pre.x");
    let script = p.get_linkerscript(tree(), ManglingMatches::V0).unwrap();
    assert!(script.starts_with("INCLUDE pre.x\n\nMEMORY {\n"));
    assert!(script.contains("*(.text._R_3app*)"));
}

#[test]
fn display_tree_resolves_inverted_crate() {
    let mut p = CratePlacer::new();
    p.config(config());
    let t = p.display_tree(tree(), true, true, Inverted::Inverted("app".to_string())).unwrap();
    assert!(t.display_unspecified && t.no_dedupe);
    assert!(matches!(&t.inverted, Inverted::Inverted(id) if id == "app 1"));
    assert!(t.crates[0].1.assignment.is_some());
    assert!(matches!(
        p.display_tree(tree(), false, false, Inverted::Inverted("nope".to_string())),
        Err(CratePlacerError::DepNotFound(n)) if n == "nope"
    ));
}

#[test]
fn bless_adds_exact_patterns() {
    let mut p = CratePlacer::new();
    assert!(matches!(p.bless(&vec![]), Err(CratePlacerError::FailedToFindConfig(_))));
    p.ignorelist(IgnoreList::new(&vec!["^old$".to_string()]));
    let problems = vec![
        ValidationProblem::NoCrateName { name: "sym_a".to_string() },
        ValidationProblem::SectionOverflow { section: "s".to_string(), start: 1, length: 2 },
        ValidationProblem::NonExistentSection { symbol: "sym_b".to_string(), section: "x".to_string() },
    ];
    p.bless(&problems).unwrap();
    let list = p.ignorelist.config.as_ref().unwrap();
    assert_eq!(
        list.patterns(),
        &vec!["^old$".to_string(), "^sym_a$".to_string(), "^sym_b$".to_string()]
    );
}

#[test]
fn validate_checks_against_assignment() {
    let mut p = CratePlacer::new();
    p.config(config());
    let units: Vec<DebugUnit> = vec![];
    let symbols = vec![BinarySymbol {
        name: Some("_ZN3app4main17h0123456789abcdefE".to_string()),
        address: 0x100,
        size: 4,
        section: Some(".text".to_string()),
    }];
    let problems = p.validate(tree(), &units, &symbols).unwrap();
    assert_eq!(problems.len(), 1);
    assert!(matches!(&problems[0], ValidationProblem::SymbolAssignment { correct_section, .. } if correct_section == "flash"));
}

#[test]
fn mangling_version_picks_patterns() {
    assert_eq!(matches_for_version(ManglingVersion::Legacy), ManglingMatches::All);
    assert_eq!(matches_for_version(ManglingVersion::V0), ManglingMatches::V0);
}

#[test]
fn file_errors_carry_the_file_name() {
    let read: Result<(), std::io::Error> = Err(std::io::Error::new(std::io::ErrorKind::Other, "boom"));
    assert!(matches!(read.file_in_result("a.txt"), Err(FileError::Out { filename, .. }) if filename == "a.txt"));
    let write: Result<(), std::io::Error> = Err(std::io::Error::new(std::io::ErrorKind::Other, "boom"));
    assert!(matches!(write.file_out_result("b.txt"), Err(FileError::In { filename, .. }) if filename == "b.txt"));
    let fine: Result<u8, std::io::Error> = Ok(3);
    assert!(matches!(fine.file_in_result("c"), Ok(3)));
}

#[test]
fn bless_escapes_regex_characters() {
    let mut p = CratePlacer::new();
    p.ignorelist(IgnoreList::new(&vec![]));
    let problems = vec![ValidationProblem::NoCrateName { name: "_ZN3foo$LT$a.b$GT$".to_string() }];
    p.bless(&problems).unwrap();
    let list = p.ignorelist.config.as_ref().unwrap();
    assert_eq!(list.patterns(), &vec!["^_ZN3foo\\$LT\\$a\\.b\\$GT\\$$".to_string()]);
}

#[test]
fn resolve_path_prefers_the_given_path() {
    let mut f: FileConfig<IgnoreList> = FileConfig::new("Memory.toml");
    assert!(matches!(f.resolve_path(None), Err(CratePlacerError::FailedToFindConfig(n)) if n == "Memory.toml"));
    assert_eq!(f.resolve_path(Some("/p/Memory.toml".to_string())).unwrap(), "/p/Memory.toml");
    assert_eq!(f.resolve_path(Some("/q/Memory.toml".to_string())).unwrap(), "/p/Memory.toml");
    assert_eq!(f.path.as_deref(), Some("/p/Memory.toml"));
}
