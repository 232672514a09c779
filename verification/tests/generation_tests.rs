use crateplace::config::{ByteUnit, Config, Ram, Section, SymPlacement, SymbolTypes};
use crateplace::deps::{Crate, CrateVersion, DepTree, SectionAssignment};
use crateplace::generation::{generate_script, ManglingMatches};

fn flash_config(length: ByteUnit) -> Config {
    Config {
        ram: Ram::new(ByteUnit::H(0x2000_0000), ByteUnit::K(128)),
        sections: vec![(
            "flash".to_string(),
            Section { origin: ByteUnit::H(0), length, priority: 1, default: false },
        )],
        crates: None,
        symbols: None,
    }
}

fn tree_with(name: &str, section: Option<&str>) -> DepTree {
    DepTree::new(
        "root".to_string(),
        vec![(
            "root".to_string(),
            Crate {
                name: name.to_string(),
                version: CrateVersion { major: 0, minor: 1, patch: 0 },
                dependencies: vec![],
                assignment: section.map(|s| SectionAssignment {
                    name: s.to_string(),
                    priority: 1,
                    user_assigned: true,
                }),
            },
        )],
    )
}

#[test]
fn script_with_symbol_patterns_and_includes() {
    let mut config = flash_config(ByteUnit::M(1));
    config.symbols = Some(vec![(
        "*foo*".to_string(),
        SymPlacement {
            section: "flash".to_string(),
            symbol_types: SymbolTypes { text: true, rodata: false, datarel: true },
        },
    )]);
    let tree = tree_with("other", None);
    let script =
        generate_script(&config, &tree, ManglingMatches::V0, Some("pre.x"), Some("post.x"));
    let expected = "INCLUDE pre.x\n\
\nMEMORY {\n    RAM : ORIGIN = 0x20000000, LENGTH = 128K\n    FLASH : ORIGIN = 0x0, LENGTH = 1M\n}\n\
\nSECTIONS {\n    .flash : {          \n        *(.text.*foo*)\n        *(.data.rel.*foo*)\n        . = ALIGN(4);\n    } > FLASH\n\
\n    .flash : {          \n        . = ALIGN(4);\n    } > FLASH\n\
} INSERT AFTER .text\n\nINCLUDE post.x\n";
    assert_eq!(script, expected);
}

#[test]
fn script_without_includes_or_patterns() {
    let config = flash_config(ByteUnit::K(512));
    let tree = tree_with("other", None);
    let script = generate_script(&config, &tree, ManglingMatches::V0, None, None);
    assert_eq!(
        script,
        "\nMEMORY {\n    RAM : ORIGIN = 0x20000000, LENGTH = 128K\n    FLASH : ORIGIN = 0x0, LENGTH = 512K\n}\n\
\nSECTIONS {\n    .flash : {          \n        . = ALIGN(4);\n    } > FLASH\n} INSERT AFTER .text\n\n"
    );
}

#[test]
fn script_places_v0_patterns_of_assigned_crate() {
    let config = flash_config(ByteUnit::K(512));
    let tree = tree_with("my-lib", Some("flash"));
    let script = generate_script(&config, &tree, ManglingMatches::V0, None, None);
    assert!(script.starts_with(
        "\nMEMORY {\n    RAM : ORIGIN = 0x20000000, LENGTH = 128K\n    FLASH : ORIGIN = 0x0, LENGTH = 512K\n}\n\
\nSECTIONS {\n    .flash : {          \n        *(.text._R_6my_lib*)\n*(.text.unlikely._R_6my_lib*)\n        \
*(.rodata._R_6my_lib*)\n        *(.data.rel.ro._R_6my_lib*)\n        *(.text._R[a-zA-Z0-9_]_6my_lib*)\n"
    ));
    assert!(script.ends_with("*(.data.rel.ro._R[a-zA-Z0-9_][a-zA-Z0-9_][a-zA-Z0-9_][a-zA-Z0-9_][a-zA-Z0-9_][a-zA-Z0-9_][a-zA-Z0-9_][a-zA-Z0-9_][a-zA-Z0-9_][a-zA-Z0-9_][a-zA-Z0-9_][a-zA-Z0-9_][a-zA-Z0-9_][a-zA-Z0-9_][a-zA-Z0-9_][a-zA-Z0-9_][a-zA-Z0-9_][a-zA-Z0-9_][a-zA-Z0-9_][a-zA-Z0-9_][a-zA-Z0-9_][a-zA-Z0-9_][a-zA-Z0-9_][a-zA-Z0-9_][a-zA-Z0-9_]_6my_lib*)\n        . = ALIGN(4);\n    } > FLASH\n} INSERT AFTER .text\n\n"));
    assert_eq!(script.matches("*(.text._R").count(), 26);
    assert_eq!(script.matches("_ZN").count(), 0);
}

#[test]
fn script_places_legacy_patterns_of_assigned_crate() {
    let config = flash_config(ByteUnit::K(512));
    let tree = tree_with("my-lib", Some("flash"));
    let script = generate_script(&config, &tree, ManglingMatches::Legacy, None, None);
    assert!(script.contains("*(.text._ZN6my_lib*)\n"));
    assert!(script.contains("*(.text._ZN$my_lib*)\n"));
    assert!(script.contains("*(.text._ZN[a-zA-Z0-9_$]$my_lib*)\n"));
    assert_eq!(script.matches("*(.text._ZN").count(), 33);
    assert_eq!(script.matches("*(.text._R").count(), 0);
    let all = generate_script(&config, &tree, ManglingMatches::All, None, None);
    assert_eq!(all.matches("*(.text._ZN").count(), 33);
    assert_eq!(all.matches("*(.text._R").count(), 26);
    assert!(all.find("_ZN6my_lib").unwrap() < all.find("_R_6my_lib").unwrap());
}

#[test]
fn script_ignores_crates_of_other_sections() {
    let config = flash_config(ByteUnit::K(512));
    let tree = tree_with("my-lib", Some("elsewhere"));
    let script = generate_script(&config, &tree, ManglingMatches::All, None, None);
    assert!(!script.contains("my_lib"));
}

#[test]
fn section_targets_drop_separators_and_go_upper_case() {
    let mut config = flash_config(ByteUnit::K(512));
    config.sections[0].0 = "second-flash_2".to_string();
    let tree = tree_with("other", None);
    let script = generate_script(&config, &tree, ManglingMatches::V0, None, None);
    assert!(script.contains("    SECONDFLASH2 : ORIGIN = 0x0, LENGTH = 512K\n"));
    assert!(script.contains(".second-flash_2 : {          \n        . = ALIGN(4);\n    } > SECONDFLASH2\n"));
}

#[test]
fn memory_lines_are_joined() {
    let mut config = flash_config(ByteUnit::K(512));
    config.sections.push((
        "more".to_string(),
        Section { origin: ByteUnit::K(512), length: ByteUnit::B(4096), priority: 2, default: false },
    ));
    let tree = tree_with("other", None);
    let script = generate_script(&config, &tree, ManglingMatches::V0, None, None);
    assert!(script.contains(
        "    FLASH : ORIGIN = 0x0, LENGTH = 512K\n    MORE : ORIGIN = 512K, LENGTH = 4096\n}"
    ));
}
