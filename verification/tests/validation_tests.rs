use crateplace::config::{ByteUnit, Config, Ram, Section, SymPlacement, SymbolTypes};
use crateplace::deps::{Crate, CrateVersion, DepTree, SectionAssignment};
use crateplace::validation::{
    classify_rust_symbol, debug_units, late_classify, symbol_table, binary_contents, read_dwarf, ValidationError, validate, validate_placement, RawEntry, RawUnit, BinarySymbol, DebugEntry,
    DebugUnit, EntryTag, IgnoreList, ProblemLevel, SymbolClass, ValidationProblem,
    ValidationSymbol,
};

fn chars(s: &str) -> Vec<char> {
    s.chars().collect()
}

fn classify(name: &str, linkage: &str, ns: Option<&str>) -> Result<SymbolClass, ValidationProblem> {
    classify_rust_symbol(&chars(name), &chars(linkage), &ns.map(chars))
}

#[test]
fn legacy_symbol_is_classified_with_its_crate() {
    match classify("write", "_ZN4core3fmt5write17h0123456789abcdefE", None) {
        Ok(SymbolClass::RustMangled { demangled, crate_name }) => {
            assert_eq!(crate_name, "core");
            assert!(demangled.starts_with("core::fmt::write"));
        }
        other => panic!("unexpected {other:?}"),
    }
}

#[test]
fn v0_symbol_is_classified_with_its_crate() {
    match classify("foo", "_RNvCs1234_7mycrate3foo", None) {
        Ok(SymbolClass::RustMangled { demangled, crate_name }) => {
            assert_eq!(crate_name, "mycrate");
            assert!(demangled.contains("mycrate"));
            assert!(demangled.ends_with("::foo"));
        }
        other => panic!("unexpected {other:?}"),
    }
}

#[test]
fn legacy_crate_name_with_dollar_escapes() {
    let linkage = "_ZN59_$LT$core..fmt..Arguments$u20$as$u20$core..fmt..Display$GT$3fmt17h0123456789abcdefE";
    match classify("fmt", linkage, None) {
        Ok(SymbolClass::RustMangled { crate_name, .. }) => assert_eq!(crate_name, "core"),
        other => panic!("unexpected {other:?}"),
    }
}

#[test]
fn v0_symbol_without_disambiguator_falls_back_to_namespace() {
    match classify("foo", "_RNvC7mycrate3foo", Some("ns_crate")) {
        Ok(SymbolClass::RustMangled { crate_name, .. }) => assert_eq!(crate_name, "ns_crate"),
        other => panic!("unexpected {other:?}"),
    }
    assert!(matches!(
        classify("foo", "_RNvC7mycrate3foo", None),
        Err(ValidationProblem::NoCrateName { name }) if name == "_RNvC7mycrate3foo"
    ));
}

#[test]
fn special_symbols_are_recognised() {
    assert!(matches!(classify("Reset", "Reset", None), Ok(SymbolClass::Ignored)));
    assert!(matches!(classify("__aeabi_memcpy", "x", None), Ok(SymbolClass::Ignored)));
    assert!(matches!(classify("main", "main", None), Ok(SymbolClass::Main)));
    assert!(matches!(
        classify("__cortex_m_rt_main", "__cortex_m_rt_main", None),
        Ok(SymbolClass::CortexMShenanigans)
    ));
    assert!(matches!(classify("__ONCE__", "__ONCE__", None), Ok(SymbolClass::CortexMShenanigans)));
    assert!(matches!(
        classify("S", "{\"package\":\"app\",\"tag\":\"defmt_info\"}", None),
        Ok(SymbolClass::Defmt)
    ));
    assert!(matches!(
        classify("DEFMT_VERSION", "_defmt_version_ = 1", None),
        Ok(SymbolClass::Defmt)
    ));
}

#[test]
fn unknown_symbols_are_reported() {
    match classify("thing", "thing_c", None) {
        Err(ValidationProblem::UnknownManglingScheme { name, mangled_name }) => {
            assert_eq!(name, "thing");
            assert_eq!(mangled_name, "thing_c");
        }
        other => panic!("unexpected {other:?}"),
    }
}

#[test]
fn late_classification_only_knows_rust_names() {
    assert!(matches!(
        late_classify(&chars("_ZN4core3fmt5write17h0123456789abcdefE")),
        Ok(SymbolClass::RustMangled { .. })
    ));
    assert!(matches!(
        late_classify(&chars("memcpy")),
        Err(ValidationProblem::ClassificationFailure { name }) if name == "memcpy"
    ));
}

#[test]
fn problem_levels() {
    let warn = ValidationProblem::NoCrateName { name: "x".to_string() };
    let warn2 = ValidationProblem::UnknownManglingScheme { name: "x".to_string(), mangled_name: "y".to_string() };
    let err = ValidationProblem::ClassificationFailure { name: "x".to_string() };
    assert_eq!(warn.problem_level(), ProblemLevel::Warning);
    assert_eq!(warn2.problem_level(), ProblemLevel::Warning);
    assert_eq!(err.problem_level(), ProblemLevel::Error);
    assert_eq!(
        ValidationProblem::InvalidNumber { number: "1".to_string() }.problem_level(),
        ProblemLevel::Error
    );
}

fn config() -> Config {
    Config {
        ram: Ram::new(ByteUnit::H(0x2000_0000), ByteUnit::K(128)),
        sections: vec![
            ("flash".to_string(), Section { origin: ByteUnit::H(0), length: ByteUnit::K(512), priority: 1, default: false }),
            ("second".to_string(), Section { origin: ByteUnit::K(512), length: ByteUnit::K(512), priority: 2, default: false }),
        ],
        crates: None,
        symbols: None,
    }
}

fn tree(section: Option<&str>) -> DepTree {
    DepTree::new(
        "my-lib 0.1.0".to_string(),
        vec![(
            "my-lib 0.1.0".to_string(),
            Crate {
                name: "my-lib".to_string(),
                version: CrateVersion { major: 0, minor: 1, patch: 0 },
                dependencies: vec![],
                assignment: section.map(|s| SectionAssignment { name: s.to_string(), priority: 2, user_assigned: true }),
            },
        )],
    )
}

fn symbol(section: &str, address: u64, size: u64) -> ValidationSymbol {
    ValidationSymbol {
        name: "_ZN6my_lib3foo17h0123456789abcdefE".to_string(),
        class: SymbolClass::RustMangled { demangled: "my_lib::foo".to_string(), crate_name: "my_lib".to_string() },
        section: section.to_string(),
        address,
        size,
    }
}

#[test]
fn symbol_in_its_section_is_fine() {
    assert!(validate_placement(&symbol(".second", 0x80000, 0x10), &tree(Some("second")), &config()).is_ok());
    // the end of the section counts as within it
    assert!(validate_placement(&symbol("second", 0x100000, 0), &tree(Some("second")), &config()).is_ok());
}

#[test]
fn unassigned_crate_is_not_checked() {
    assert!(validate_placement(&symbol(".text", 0, 4), &tree(None), &config()).is_ok());
}

#[test]
fn symbol_in_wrong_section() {
    match validate_placement(&symbol(".flash", 0x100, 4), &tree(Some("second")), &config()) {
        Err(ValidationProblem::SymbolAssignment { name, owner, correct_section, actual_section }) => {
            assert_eq!(name, "_ZN6my_lib3foo17h0123456789abcdefE");
            assert_eq!(owner, "crate: \"my-lib\"");
            assert_eq!(correct_section, "second");
            assert_eq!(actual_section, "flash");
        }
        other => panic!("unexpected {other:?}"),
    }
}

#[test]
fn symbol_outside_its_section() {
    match validate_placement(&symbol(".second", 0x100, 4), &tree(Some("second")), &config()) {
        Err(ValidationProblem::SymbolPlacement { symbol_position, section_start, section_end, section_name, .. }) => {
            assert_eq!(symbol_position, 0x100);
            assert_eq!(section_start, 0x80000);
            assert_eq!(section_end, 0x100000);
            assert_eq!(section_name, "second");
        }
        other => panic!("unexpected {other:?}"),
    }
}

#[test]
fn symbol_running_past_its_section() {
    match validate_placement(&symbol(".second", 0xffff0, 0x20), &tree(Some("second")), &config()) {
        Err(ValidationProblem::SymbolTooBig { symbol_start, symbol_end, section_end, .. }) => {
            assert_eq!(symbol_start, 0xffff0);
            assert_eq!(symbol_end, 0x100010);
            assert_eq!(section_end, 0x100000);
        }
        other => panic!("unexpected {other:?}"),
    }
}

#[test]
fn symbol_size_overflows() {
    let mut c = config();
    c.sections[1].1.length = ByteUnit::H(u64::MAX - 0x80000);
    assert!(matches!(
        validate_placement(&symbol(".second", 0x90000, u64::MAX), &tree(Some("second")), &c),
        Err(ValidationProblem::SymbolOverflow { start: 0x90000, length: u64::MAX, .. })
    ));
}

#[test]
fn section_bounds_that_do_not_fit() {
    let mut c = config();
    c.sections[1].1.origin = ByteUnit::G(u64::MAX);
    assert!(matches!(
        validate_placement(&symbol(".second", 0, 1), &tree(Some("second")), &c),
        Err(ValidationProblem::InvalidNumber { number }) if number == format!("{}G", u64::MAX)
    ));
    let mut c = config();
    c.sections[1].1.length = ByteUnit::M(u64::MAX);
    // the origin is what the problem reports
    assert!(matches!(
        validate_placement(&symbol(".second", 0, 1), &tree(Some("second")), &c),
        Err(ValidationProblem::InvalidNumber { number }) if number == "512K"
    ));
    let mut c = config();
    c.sections[1].1.origin = ByteUnit::H(u64::MAX);
    c.sections[1].1.length = ByteUnit::B(2);
    assert!(matches!(
        validate_placement(&symbol(".second", 0, 1), &tree(Some("second")), &c),
        Err(ValidationProblem::SectionOverflow { start: u64::MAX, length: 2, .. })
    ));
}

#[test]
fn symbol_of_unknown_crate() {
    let mut s = symbol(".second", 0x80000, 4);
    s.class = SymbolClass::RustMangled { demangled: "x".to_string(), crate_name: "other".to_string() };
    assert!(matches!(
        validate_placement(&s, &tree(Some("second")), &config()),
        Err(ValidationProblem::NonExistentCrate { crate_name, .. }) if crate_name == "other"
    ));
}

#[test]
fn crate_assigned_to_unknown_section() {
    assert!(matches!(
        validate_placement(&symbol(".second", 0x80000, 4), &tree(Some("nowhere")), &config()),
        Err(ValidationProblem::NonExistentSectionCrate { crate_name, section }) if crate_name == "my-lib" && section == "nowhere"
    ));
}

fn with_pattern(pattern: &str, section: &str) -> Config {
    let mut c = config();
    c.symbols = Some(vec![(
        pattern.to_string(),
        SymPlacement { section: section.to_string(), symbol_types: SymbolTypes { text: true, rodata: true, datarel: true } },
    )]);
    c
}

#[test]
fn symbol_pattern_overrides_crate() {
    let c = with_pattern("*my_lib*", "flash");
    assert!(validate_placement(&symbol(".flash", 0x100, 4), &tree(Some("second")), &c).is_ok());
    match validate_placement(&symbol(".second", 0x80000, 4), &tree(Some("second")), &c) {
        Err(ValidationProblem::SymbolAssignment { owner, correct_section, .. }) => {
            assert_eq!(owner, "custom pattern: \"*my_lib*\"");
            assert_eq!(correct_section, "flash");
        }
        other => panic!("unexpected {other:?}"),
    }
    let other = with_pattern("*nomatch*", "flash");
    assert!(validate_placement(&symbol(".second", 0x80000, 4), &tree(Some("second")), &other).is_ok());
}

#[test]
fn bad_symbol_patterns() {
    assert!(matches!(
        validate_placement(&symbol(".flash", 0x100, 4), &tree(None), &with_pattern("[", "flash")),
        Err(ValidationProblem::InvalidGlobPattern { pattern, .. }) if pattern == "["
    ));
    assert!(matches!(
        validate_placement(&symbol(".flash", 0x100, 4), &tree(None), &with_pattern("*foo*", "nowhere")),
        Err(ValidationProblem::NonExistentSection { section, .. }) if section == "nowhere"
    ));
}

fn entry(depth: isize, tag: EntryTag, name: Option<&str>, linkage: Option<&str>) -> DebugEntry {
    DebugEntry { depth, tag, name: name.map(String::from), linkage_name: linkage.map(String::from) }
}

fn bin(name: &str, address: u64, size: u64, section: Option<&str>) -> BinarySymbol {
    BinarySymbol { name: Some(name.to_string()), address, size, section: section.map(String::from) }
}

#[test]
fn whole_binary_is_checked() {
    let units = vec![
        DebugUnit {
            is_rust: true,
            entries: vec![
                entry(1, EntryTag::Namespace, Some("my_lib"), None),
                entry(2, EntryTag::Subprogram, Some("foo"), Some("_ZN6my_lib3foo17h0123456789abcdefE")),
                entry(2, EntryTag::Variable, Some("COUNTER"), None),
                entry(1, EntryTag::Variable, Some("LONELY"), None),
                entry(1, EntryTag::Subprogram, Some("odd"), Some("odd_linkage")),
            ],
        },
        DebugUnit { is_rust: false, entries: vec![entry(1, EntryTag::Subprogram, Some("c_func"), None)] },
    ];
    let symbols = vec![
        bin("_ZN6my_lib3foo17h0123456789abcdefE", 0x100, 8, Some(".flash")),
        bin("COUNTER", 0x80000, 4, Some(".second")),
        bin("LONELY", 0x200, 4, Some(".flash")),
        bin("c_func", 0x300, 4, Some(".flash")),
        bin("empty", 0x300, 0, Some(".flash")),
        bin("__aeabi_memcpy", 0x300, 4, Some(".flash")),
        bin("mystery", 0x400, 4, Some(".flash")),
        bin(".Lanon.123_ZN6my_lib3bar17h0123456789abcdefE", 0x80010, 4, Some(".second")),
    ];
    let problems = validate(&units, &symbols, &tree(Some("second")), &config());
    let summary: Vec<String> = problems.iter().map(|p| format!("{p:?}")).collect();
    assert_eq!(problems.len(), 4, "{summary:?}");
    assert!(matches!(&problems[0], ValidationProblem::UnknownManglingScheme { name, .. } if name == "odd"));
    assert!(matches!(&problems[1], ValidationProblem::NoCrateName { name } if name == "LONELY"));
    assert!(matches!(&problems[2], ValidationProblem::ClassificationFailure { name } if name == "mystery"));
    assert!(matches!(&problems[3], ValidationProblem::SymbolAssignment { name, actual_section, .. }
        if name == "_ZN6my_lib3foo17h0123456789abcdefE" && actual_section == "flash"));
}

#[test]
fn ignore_list_holds_patterns() {
    let list = IgnoreList::new(&vec!["^a$".to_string(), "^b$".to_string()]);
    assert_eq!(list.patterns(), &vec!["^a$".to_string(), "^b$".to_string()]);
    assert!(IgnoreList::default().patterns().is_empty());
}

#[test]
fn symbols_are_shown_with_class_and_place() {
    assert_eq!(
        symbol(".second", 0xab, 0x4).to_string(),
        "_ZN6my_lib3foo17h0123456789abcdefE: RustMangled{\"my_lib::foo\", crate: \"my_lib\"} at 0xab size 0x04 in .second"
    );
    let mut s = symbol(".flash", 0x1234, 0x100);
    s.class = SymbolClass::RustNonMangled { name: "C".to_string(), crate_name: "k".to_string() };
    s.name = "C".to_string();
    assert_eq!(s.to_string(), "C: RustNonMangled{\"C\", crate: \"k\"} at 0x1234 size 0x100 in .flash");
    s.class = SymbolClass::OtherLang;
    assert_eq!(s.to_string(), "C: OtherLanguage at 0x1234 size 0x100 in .flash");
    s.class = SymbolClass::CortexMShenanigans;
    assert!(s.to_string().starts_with("C: CortexMSpecial at"));
}

#[test]
fn debug_units_read_tags_and_language() {
    let entry = |tag: u16, name: &str| RawEntry {
        depth: 1,
        tag,
        name: Some(name.to_string()),
        linkage_name: None,
    };
    let raw = vec![
        RawUnit { language: Some(0x1c), entries: vec![entry(0x39, "ns"), entry(0x2e, "f"), entry(0x34, "v"), entry(0x11, "cu")] },
        RawUnit { language: Some(0x0c), entries: vec![] },
        RawUnit { language: None, entries: vec![] },
    ];
    let units = debug_units(&raw);
    assert_eq!(units.len(), 3);
    assert!(units[0].is_rust);
    assert!(!units[1].is_rust);
    assert!(!units[2].is_rust);
    let tags: Vec<EntryTag> = units[0].entries.iter().map(|e| e.tag).collect();
    assert_eq!(tags, vec![EntryTag::Namespace, EntryTag::Subprogram, EntryTag::Variable, EntryTag::Other]);
    assert_eq!(units[0].entries[1].name.as_deref(), Some("f"));
    assert_eq!(units[0].entries[1].depth, 1);
}

fn empty_elf() -> Vec<u8> {
    let mut b = vec![0x7f, b'E', b'L', b'F', 2, 1, 1, 0, 0, 0, 0, 0, 0, 0, 0, 0];
    b.extend_from_slice(&2u16.to_le_bytes());
    b.extend_from_slice(&0x3eu16.to_le_bytes());
    b.extend_from_slice(&1u32.to_le_bytes());
    b.extend_from_slice(&0u64.to_le_bytes());
    b.extend_from_slice(&0u64.to_le_bytes());
    b.extend_from_slice(&0u64.to_le_bytes());
    b.extend_from_slice(&0u32.to_le_bytes());
    b.extend_from_slice(&64u16.to_le_bytes());
    b.extend_from_slice(&0x38u16.to_le_bytes());
    b.extend_from_slice(&0u16.to_le_bytes());
    b.extend_from_slice(&0x40u16.to_le_bytes());
    b.extend_from_slice(&0u16.to_le_bytes());
    b.extend_from_slice(&0u16.to_le_bytes());
    b
}

#[test]
fn symbol_table_reads_object_files_only() {
    assert!(matches!(symbol_table(&vec![1, 2, 3]), Err(ValidationError::ObjectError(_))));
    assert!(symbol_table(&empty_elf()).unwrap().is_empty());
}

#[test]
fn binary_contents_of_an_empty_object() {
    let (units, symbols) = binary_contents(&empty_elf()).unwrap();
    assert!(units.is_empty());
    assert!(symbols.is_empty());
    assert!(read_dwarf(&empty_elf()).unwrap().is_empty());
    assert!(matches!(binary_contents(&vec![0u8; 4]), Err(ValidationError::ObjectError(_))));
    assert!(matches!(read_dwarf(&vec![0u8; 4]), Err(ValidationError::ObjectError(_))));
}
