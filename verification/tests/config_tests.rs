use crateplace::init::{
    init_step, InitAction, InitError, InitEvent, InitFile, InitState, DEFAULT_BUILD_RS, DEFAULT_MEMORY_TOML,
};
use crateplace::config::{
    ByteUnit, Config, ConfigChecker, ConfigModificationError, ConfigValidationError, CratePlacement, Ram, Section,
    SymPlacement, SymbolTypes,
};

fn section(origin: ByteUnit, length: ByteUnit, priority: u32, default: bool) -> Section {
    Section { origin, length, priority, default }
}

fn base_config() -> Config {
    Config {
        ram: Ram::new(ByteUnit::H(0x2000_0000), ByteUnit::K(128)),
        sections: vec![
            ("flash".to_string(), section(ByteUnit::H(0), ByteUnit::K(512), 1, false)),
            ("second_flash".to_string(), section(ByteUnit::K(512), ByteUnit::K(512), 2, true)),
        ],
        crates: None,
        symbols: None,
    }
}

fn all_types() -> SymbolTypes {
    SymbolTypes { text: true, rodata: true, datarel: true }
}

#[test]
fn byte_unit_parses_hex() {
    assert!(matches!(ByteUnit::from_str("0x20000000"), Ok(ByteUnit::H(0x2000_0000))));
    assert!(matches!(ByteUnit::from_str("0X1f"), Ok(ByteUnit::H(31))));
}

#[test]
fn byte_unit_parses_suffixes() {
    assert!(matches!(ByteUnit::from_str("128K"), Ok(ByteUnit::K(128))));
    assert!(matches!(ByteUnit::from_str("1M"), Ok(ByteUnit::M(1))));
    assert!(matches!(ByteUnit::from_str("2G"), Ok(ByteUnit::G(2))));
    assert!(matches!(ByteUnit::from_str("100"), Ok(ByteUnit::B(100))));
}

#[test]
fn byte_unit_rejects_garbage() {
    let err = ByteUnit::from_str("12Q").unwrap_err();
    assert_eq!(err.input(), "12Q");
    assert!(ByteUnit::from_str("").is_err());
    assert!(ByteUnit::from_str("K").is_err());
    assert!(ByteUnit::from_str("0x").is_err());
    assert!(ByteUnit::from_str("0xZZ").is_err());
    assert!(ByteUnit::from_str("99999999999999999999").is_err());
}

#[test]
fn byte_unit_from_str_trait() {
    let u: ByteUnit = "4K".parse().unwrap();
    assert_eq!(u, ByteUnit::K(4));
}

#[test]
fn byte_unit_counts_bytes() {
    assert_eq!(ByteUnit::H(0x10).as_bytes(), 16);
    assert_eq!(ByteUnit::B(7).as_bytes(), 7);
    assert_eq!(ByteUnit::K(128).as_bytes(), 131072);
    assert_eq!(ByteUnit::M(1).as_bytes(), 1048576);
    assert_eq!(ByteUnit::G(2).as_bytes(), 2147483648);
    assert_eq!(ByteUnit::G(u64::MAX).checked_bytes(), None);
    assert_eq!(ByteUnit::K(3).checked_bytes(), Some(3072));
}

#[test]
fn byte_unit_writes_itself() {
    assert_eq!(ByteUnit::H(0x2000_0000).to_string(), "0x20000000");
    assert_eq!(ByteUnit::H(5).to_string(), "0x5");
    assert_eq!(ByteUnit::H(0xab).to_string(), "0xAB");
    assert_eq!(ByteUnit::B(100).to_string(), "100");
    assert_eq!(ByteUnit::K(128).to_string(), "128K");
    assert_eq!(ByteUnit::M(1).to_string(), "1M");
    assert_eq!(ByteUnit::G(0).to_string(), "0G");
}

#[test]
fn byte_unit_round_trips() {
    for u in [
        ByteUnit::B(0),
        ByteUnit::B(42),
        ByteUnit::K(128),
        ByteUnit::M(7),
        ByteUnit::G(1),
        ByteUnit::H(0),
        ByteUnit::H(0x10),
        ByteUnit::H(u64::MAX),
    ] {
        assert_eq!(ByteUnit::from_str(&u.to_string()).unwrap(), u);
    }
}

#[test]
fn valid_config_passes() {
    let c = base_config();
    assert!(c.validate().is_ok());
}

#[test]
fn overlapping_sections_fail() {
    let mut c = base_config();
    c.sections[1].1 = section(ByteUnit::K(256), ByteUnit::K(512), 2, false);
    match c.validate() {
        Err(ConfigValidationError::Overlap(a, b)) => {
            assert_eq!(a, "second_flash");
            assert_eq!(b, "flash");
        }
        other => panic!("unexpected {other:?}"),
    }
}

#[test]
fn section_overlapping_ram_fails() {
    let mut c = base_config();
    c.sections[0].1 = section(ByteUnit::H(0x2000_0100), ByteUnit::K(1), 1, false);
    match c.validate() {
        Err(ConfigValidationError::Overlap(a, b)) => {
            assert_eq!(a, "flash");
            assert_eq!(b, "ram");
        }
        other => panic!("unexpected {other:?}"),
    }
}

#[test]
fn zero_length_section_fails() {
    let mut c = base_config();
    c.sections[0].1 = section(ByteUnit::H(0), ByteUnit::B(0), 1, false);
    assert!(matches!(c.validate(), Err(ConfigValidationError::ZeroSection(n)) if n == "flash"));
}

#[test]
fn overflowing_section_fails() {
    let mut c = base_config();
    c.sections[0].1 = section(ByteUnit::H(u64::MAX), ByteUnit::B(2), 1, false);
    assert!(matches!(c.validate(), Err(ConfigValidationError::OverFlow(n)) if n == "flash"));
}

#[test]
fn repeated_priority_fails() {
    let mut c = base_config();
    c.sections[1].1.priority = 1;
    assert!(matches!(
        c.validate(),
        Err(ConfigValidationError::DoublePrio(n, 1)) if n == "second_flash"
    ));
}

#[test]
fn two_defaults_fail() {
    let mut c = base_config();
    c.sections[0].1.default = true;
    assert!(matches!(c.validate(), Err(ConfigValidationError::MultipleDefaults)));
}

#[test]
fn crate_in_missing_section_fails() {
    let mut c = base_config();
    c.crates = Some(vec![(
        "serde".to_string(),
        CratePlacement { section: "nowhere".to_string(), include_dependencies: true },
    )]);
    match c.validate() {
        Err(ConfigValidationError::NonExistentSection(a, b)) => {
            assert_eq!(a, "serde");
            assert_eq!(b, "nowhere");
        }
        other => panic!("unexpected {other:?}"),
    }
}

#[test]
fn symbol_in_missing_section_fails() {
    let mut c = base_config();
    c.symbols = Some(vec![(
        "*foo*".to_string(),
        SymPlacement { section: "nowhere".to_string(), symbol_types: all_types() },
    )]);
    assert!(matches!(
        c.validate(),
        Err(ConfigValidationError::NonExistentSection(a, b)) if a == "*foo*" && b == "nowhere"
    ));
}

#[test]
fn symbol_without_kinds_fails() {
    let mut c = base_config();
    c.symbols = Some(vec![(
        "*foo*".to_string(),
        SymPlacement {
            section: "flash".to_string(),
            symbol_types: SymbolTypes { text: false, rodata: false, datarel: false },
        },
    )]);
    assert!(matches!(
        c.validate(),
        Err(ConfigValidationError::SymbolWithoutSections(a)) if a == "*foo*"
    ));
}

#[test]
fn units_that_do_not_fit_are_detected() {
    let mut c = base_config();
    c.sections[0].1.length = ByteUnit::G(u64::MAX);
    assert!(c.validate_checked().is_none());
}

#[test]
fn add_section_appends_and_checks() {
    let mut c = base_config();
    let r = c.add_section("third", ByteUnit::M(1), ByteUnit::K(64), 3, false);
    assert!(r.is_ok());
    assert_eq!(c.sections.len(), 3);
    assert_eq!(c.sections[2].0, "third");
    assert_eq!(c.sections[2].1.priority, 3);
}

#[test]
fn add_section_refuses_existing_name() {
    let mut c = base_config();
    let r = c.add_section("flash", ByteUnit::M(1), ByteUnit::K(64), 3, false);
    assert!(matches!(r, Err(ConfigModificationError::SectionNameExists(n)) if n == "flash"));
    assert_eq!(c.sections.len(), 2);
}

#[test]
fn add_section_reports_invalid_result() {
    let mut c = base_config();
    let r = c.add_section("clash", ByteUnit::K(100), ByteUnit::K(64), 3, false);
    assert!(matches!(
        r,
        Err(ConfigModificationError::Validation(ConfigValidationError::Overlap(a, b)))
            if a == "clash" && b == "flash"
    ));
    // the section stays, as it did before the check
    assert_eq!(c.sections.len(), 3);
}

#[test]
fn validate_checked_reports_unreadable_units() {
    let mut c = base_config();
    c.ram.length = ByteUnit::G(u64::MAX);
    assert!(c.validate_checked().is_none());
    c.crates = Some(vec![(
        "serde".to_string(),
        CratePlacement { section: "nowhere".to_string(), include_dependencies: true },
    )]);
    // the placement is checked before any unit is read
    assert!(matches!(
        c.validate_checked(),
        Some(Err(ConfigValidationError::NonExistentSection(_, _)))
    ));
    assert!(matches!(c.validate(), Err(ConfigValidationError::NonExistentSection(_, _))));
}

#[test]
fn units_after_the_first_problem_are_not_read() {
    let mut c = base_config();
    c.sections[0].1.length = ByteUnit::B(0);
    c.sections[1].1.origin = ByteUnit::G(u64::MAX);
    assert!(matches!(c.validate(), Err(ConfigValidationError::ZeroSection(n)) if n == "flash"));
    assert!(matches!(c.validate_checked(), Some(Err(_))));
}

const SECTIONS_TEXT: &str = "[ram]\norigin = \"0x20000000\"\nlength = \"128K\"\n\n[sections]\nflash = { origin = \"0x0\", length = \"512K\", priority = 1 }\nsecond_flash = { origin = \"512K\", length = \"512K\", priority = 2, default = true }\n";

#[test]
fn add_section_to_text_keeps_layout_and_adds_entry() {
    let mut c = base_config();
    c.sections[1].1.default = false;
    let r = c.add_section_to_text(SECTIONS_TEXT, "third", ByteUnit::H(0x100000), ByteUnit::K(64), 3, true);
    let text = r.unwrap();
    assert!(text.starts_with(SECTIONS_TEXT));
    assert!(text.contains("third"));
    assert!(text.contains("origin = \"0x100000\""));
    assert!(text.contains("length = \"64K\""));
    assert!(text.contains("priority = 3"));
    assert!(text.contains("default = true"));
    assert_eq!(c.sections.len(), 3);
    assert_eq!(c.sections[2].0, "third");
}

#[test]
fn add_section_to_text_without_default_leaves_the_key_out() {
    let mut c = base_config();
    let text = c
        .add_section_to_text(SECTIONS_TEXT, "third", ByteUnit::M(1), ByteUnit::K(64), 3, false)
        .unwrap();
    let added = &text[SECTIONS_TEXT.len()..];
    assert!(added.contains("third"));
    assert!(added.contains("origin = \"1M\""));
    assert!(!added.contains("default"));
}

#[test]
fn add_section_to_text_refuses_existing_name() {
    let mut c = base_config();
    let r = c.add_section_to_text(SECTIONS_TEXT, "flash", ByteUnit::M(1), ByteUnit::K(64), 3, false);
    assert!(matches!(r, Err(ConfigModificationError::SectionNameExists(n)) if n == "flash"));
    assert_eq!(c.sections.len(), 2);
}

#[test]
fn add_section_to_text_reports_invalid_result_first() {
    let mut c = base_config();
    let r = c.add_section_to_text("[[", "clash", ByteUnit::K(100), ByteUnit::K(64), 3, false);
    assert!(matches!(r, Err(ConfigModificationError::Validation(ConfigValidationError::Overlap(..)))));
}

#[test]
fn add_section_to_text_needs_a_sections_table() {
    let mut c = base_config();
    let r = c.add_section_to_text("[ram]\norigin = \"0x0\"\n", "third", ByteUnit::M(1), ByteUnit::K(64), 3, false);
    assert!(matches!(r, Err(ConfigModificationError::FailedToFind("sections"))));
    let mut c = base_config();
    let r = c.add_section_to_text("sections = 1\n", "third", ByteUnit::M(1), ByteUnit::K(64), 3, false);
    assert!(matches!(r, Err(ConfigModificationError::UnexpectedType("sections"))));
    let mut c = base_config();
    let r = c.add_section_to_text("[[", "third", ByteUnit::M(1), ByteUnit::K(64), 3, false);
    assert!(matches!(r, Err(ConfigModificationError::TomlError(_))));
}

#[test]
fn checker_records_priority_before_failing_and_keeps_regions_apart() {
    let mut c = ConfigChecker::new();
    assert!(c.check("a".to_string(), 0, 16, Some(1)).is_ok());
    assert!(matches!(
        c.check("b".to_string(), 8, 16, Some(2)),
        Err(ConfigValidationError::Overlap(x, y)) if x == "b" && y == "a"
    ));
    assert_eq!(c.occupied.len(), 1);
    assert_eq!(c.prios, vec![1, 2]);
    assert!(matches!(c.check("c".to_string(), 32, 0, Some(3)), Err(ConfigValidationError::ZeroSection(_))));
    assert_eq!(c.prios, vec![1, 2, 3]);
    assert!(matches!(c.check("d".to_string(), 64, 1, Some(1)), Err(ConfigValidationError::DoublePrio(_, 1))));
    assert!(matches!(c.check("e".to_string(), u64::MAX, 2, None), Err(ConfigValidationError::OverFlow(_))));
    assert!(c.check("f".to_string(), 16, 16, None).is_ok());
    assert_eq!(c.occupied.len(), 2);
    assert_eq!((c.occupied[1].origin, c.occupied[1].end), (16, 32));
}

#[test]
fn init_steps_write_config_ignore_list_and_build_script() {
    let (s, a) = init_step(InitState::Start, InitEvent::Begin);
    assert_eq!(s, InitState::CheckingConfig);
    assert!(matches!(a, InitAction::CheckExists(InitFile::Config)));
    let (s, a) = init_step(s, InitEvent::Exists(false));
    assert!(matches!(a, InitAction::Write(InitFile::Config, ref t) if t == DEFAULT_MEMORY_TOML));
    let (s, a) = init_step(s, InitEvent::Written(Ok(())));
    assert!(matches!(a, InitAction::Write(InitFile::IgnoreList, ref t) if t.is_empty()));
    let (s, a) = init_step(s, InitEvent::Written(Ok(())));
    assert!(matches!(a, InitAction::CheckExists(InitFile::BuildRs)));
    let (s2, a) = init_step(s, InitEvent::Exists(true));
    assert_eq!(s2, InitState::Done);
    assert!(matches!(a, InitAction::Finish(Err(InitError::BuildRsExists))));
    let (s, a) = init_step(s, InitEvent::Exists(false));
    assert!(matches!(a, InitAction::Write(InitFile::BuildRs, ref t) if t == DEFAULT_BUILD_RS));
    let (s, a) = init_step(s, InitEvent::Written(Ok(())));
    assert_eq!(s, InitState::Done);
    assert!(matches!(a, InitAction::Finish(Ok(()))));
}

#[test]
fn init_stops_where_the_configuration_exists() {
    let (s, a) = init_step(InitState::CheckingConfig, InitEvent::Exists(true));
    assert_eq!(s, InitState::Done);
    assert!(matches!(a, InitAction::Finish(Err(InitError::MemoryFileExists))));
    let (s, a) = init_step(InitState::WritingConfig, InitEvent::Exists(true));
    assert_eq!(s, InitState::WritingConfig);
    assert!(matches!(a, InitAction::Write(..)));
}
