use crateplace::mangling::{mangling_from_llvm_ir, ManglingDetectionError, ManglingVersion};

#[test]
fn prefix_decides_scheme() {
    assert!(matches!(
        ManglingVersion::from_mangling_string_prefix("_RNvCs1_4test4test"),
        Some(ManglingVersion::V0)
    ));
    assert!(matches!(
        ManglingVersion::from_mangling_string_prefix("_ZN4test4test17h0123E"),
        Some(ManglingVersion::Legacy)
    ));
    assert!(ManglingVersion::from_mangling_string_prefix("_Z3foo").is_none());
    assert!(ManglingVersion::from_mangling_string_prefix("main").is_none());
    assert!(ManglingVersion::from_mangling_string_prefix("").is_none());
}

#[test]
fn scheme_names() {
    assert_eq!(ManglingVersion::Legacy.to_string(), "legacy");
    assert_eq!(ManglingVersion::V0.to_string(), "v0");
}

#[test]
fn llvm_ir_with_v0_name() {
    let ir = "; ModuleID = 'test'\nsource_filename = \"test\"\n\n; test::test\ndefine void @_RNvCsd1ABC_4test4test() unnamed_addr #0 {\nstart:\n  ret void\n}\n";
    assert!(matches!(mangling_from_llvm_ir(ir), Ok(ManglingVersion::V0)));
}

#[test]
fn llvm_ir_with_legacy_name() {
    let ir = "; ModuleID = 'test'\ndefine void @_ZN4test4test17h2f3a4b5c6d7e8f90E() unnamed_addr #0 {\n}\n";
    assert!(matches!(mangling_from_llvm_ir(ir), Ok(ManglingVersion::Legacy)));
}

#[test]
fn llvm_ir_with_unknown_name() {
    let ir = "define void @foo_test() {\n}\n";
    match mangling_from_llvm_ir(ir) {
        Err(ManglingDetectionError::UnrecognizedMangling(m)) => assert_eq!(m, "foo_"),
        other => panic!("unexpected {other:?}"),
    }
}

#[test]
fn llvm_ir_without_definition() {
    assert!(matches!(
        mangling_from_llvm_ir("; nothing here\n"),
        Err(ManglingDetectionError::LlvmIrParseError)
    ));
    assert!(matches!(
        mangling_from_llvm_ir("define test without at\n"),
        Err(ManglingDetectionError::LlvmIrParseError)
    ));
}
