//! Types of other crates that values of this library carry.
use vstd::prelude::*;

verus! {

/// `std::io::Error`, carried inside file errors.
#[verifier::external_type_specification]
#[verifier::external_body]
pub struct ExIoError(std::io::Error);

/// `toml::de::Error`, carried when a configuration does not parse.
#[verifier::external_type_specification]
#[verifier::external_body]
pub struct ExTomlDeError(toml::de::Error);

/// `cargo_metadata::Error`, carried when the dependencies cannot be retrieved.
#[verifier::external_type_specification]
#[verifier::external_body]
pub struct ExCargoMetadataError(cargo_metadata::Error);

/// `glob::PatternError`, carried when a symbol pattern does not compile.
#[verifier::external_type_specification]
#[verifier::external_body]
pub struct ExGlobPatternError(glob::PatternError);

/// `object::Error`, carried when a binary does not parse.
#[verifier::external_type_specification]
#[verifier::external_body]
pub struct ExObjectError(object::Error);

/// `gimli::Error`, carried when debug information cannot be read.
#[verifier::external_type_specification]
#[verifier::external_body]
pub struct ExGimliError(gimli::Error);

/// `toml_edit::TomlError`, carried when a configuration document does not parse.
#[verifier::external_type_specification]
#[verifier::external_body]
pub struct ExTomlEditError(toml_edit::TomlError);

/// `toml_edit::DocumentMut`, a configuration document being edited.
#[verifier::external_type_specification]
#[verifier::external_body]
pub struct ExTomlDocument(toml_edit::DocumentMut);

/// `toml_edit::Table`, a table of a configuration document.
#[verifier::external_type_specification]
#[verifier::external_body]
pub struct ExTomlTable(toml_edit::Table);

/// `toml_edit::InlineTable`, an entry written into a configuration document.
#[verifier::external_type_specification]
#[verifier::external_body]
pub struct ExTomlInlineTable(toml_edit::InlineTable);

} // verus!
