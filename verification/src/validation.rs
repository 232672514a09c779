//! Checking a built binary against the configuration: symbols are classified by
//! their debug information and mangled names, traced to the crate (or symbol
//! pattern) that owns them, and checked to lie in the section they were assigned.
use vstd::prelude::*;

use gimli::Reader;
use object::{Object, ObjectSection, ObjectSymbol};

use crate::config::{
    find_section, has_section, lemma_section_index_from, section_index, section_index_from, unit_text, Config,
    Section, SymPlacement,
};
use crate::deps::{Crate, DepTree};
use crate::mangling::{mangling_of, ManglingVersion};
use crate::text::{
    chars_equal, chars_of, dashes_to_underscores, underscored, find_chars, find_from, has_prefix, has_text, is_text, lemma_find_from,
    lower_hex2_text, parse_u64_range, parse_u64_text, push_lower_hex2, push_str, starts_with,
    string_from_chars, sub_chars,
};

verus! {

/// How serious a problem is.
#[derive(Debug, Clone, Copy, PartialEq, Eq, Structural)]
pub enum ProblemLevel {
    Warning,
    Error,
}

/// A problem found while validating a binary.
#[derive(Debug)]
pub enum ValidationProblem {
    SymbolTooBig {
        name: String,
        section_name: String,
        symbol_start: u64,
        symbol_end: u64,
        section_end: u64,
    },
    SymbolPlacement {
        name: String,
        section_name: String,
        symbol_position: u64,
        section_start: u64,
        section_end: u64,
    },
    SymbolAssignment {
        name: String,
        owner: String,
        correct_section: String,
        actual_section: String,
    },
    UnknownManglingScheme { name: String, mangled_name: String },
    NoCrateName { name: String },
    ClassificationFailure { name: String },
    NonExistentCrate { name: String, crate_name: String },
    NonExistentSectionCrate { crate_name: String, section: String },
    NonExistentSection { symbol: String, section: String },
    InvalidGlobPattern { pattern: String, error: glob::PatternError },
    InvalidNumber { number: String },
    SectionOverflow { section: String, start: u64, length: u64 },
    SymbolOverflow { symbol: String, start: u64, length: u64 },
}

/// A validation problem with its texts taken as character sequences.
pub enum Problem {
    SymbolTooBig {
        name: Seq<char>,
        section_name: Seq<char>,
        symbol_start: u64,
        symbol_end: u64,
        section_end: u64,
    },
    SymbolPlacement {
        name: Seq<char>,
        section_name: Seq<char>,
        symbol_position: u64,
        section_start: u64,
        section_end: u64,
    },
    SymbolAssignment {
        name: Seq<char>,
        owner: Seq<char>,
        correct_section: Seq<char>,
        actual_section: Seq<char>,
    },
    UnknownManglingScheme { name: Seq<char>, mangled_name: Seq<char> },
    NoCrateName { name: Seq<char> },
    ClassificationFailure { name: Seq<char> },
    NonExistentCrate { name: Seq<char>, crate_name: Seq<char> },
    NonExistentSectionCrate { crate_name: Seq<char>, section: Seq<char> },
    NonExistentSection { symbol: Seq<char>, section: Seq<char> },
    InvalidGlobPattern { pattern: Seq<char> },
    InvalidNumber { number: Seq<char> },
    SectionOverflow { section: Seq<char>, start: u64, length: u64 },
    SymbolOverflow { symbol: Seq<char>, start: u64, length: u64 },
}

impl View for ValidationProblem {
    type V = Problem;

    open spec fn view(&self) -> Problem {
        match self {
            ValidationProblem::SymbolTooBig {
                name,
                section_name,
                symbol_start,
                symbol_end,
                section_end,
            } => Problem::SymbolTooBig {
                name: name@,
                section_name: section_name@,
                symbol_start: *symbol_start,
                symbol_end: *symbol_end,
                section_end: *section_end,
            },
            ValidationProblem::SymbolPlacement {
                name,
                section_name,
                symbol_position,
                section_start,
                section_end,
            } => Problem::SymbolPlacement {
                name: name@,
                section_name: section_name@,
                symbol_position: *symbol_position,
                section_start: *section_start,
                section_end: *section_end,
            },
            ValidationProblem::SymbolAssignment { name, owner, correct_section, actual_section } =>
                Problem::SymbolAssignment {
                name: name@,
                owner: owner@,
                correct_section: correct_section@,
                actual_section: actual_section@,
            },
            ValidationProblem::UnknownManglingScheme { name, mangled_name } =>
                Problem::UnknownManglingScheme { name: name@, mangled_name: mangled_name@ },
            ValidationProblem::NoCrateName { name } => Problem::NoCrateName { name: name@ },
            ValidationProblem::ClassificationFailure { name } => Problem::ClassificationFailure {
                name: name@,
            },
            ValidationProblem::NonExistentCrate { name, crate_name } => Problem::NonExistentCrate {
                name: name@,
                crate_name: crate_name@,
            },
            ValidationProblem::NonExistentSectionCrate { crate_name, section } =>
                Problem::NonExistentSectionCrate { crate_name: crate_name@, section: section@ },
            ValidationProblem::NonExistentSection { symbol, section } =>
                Problem::NonExistentSection { symbol: symbol@, section: section@ },
            ValidationProblem::InvalidGlobPattern { pattern, error } => Problem::InvalidGlobPattern {
                pattern: pattern@,
            },
            ValidationProblem::InvalidNumber { number } => Problem::InvalidNumber {
                number: number@,
            },
            ValidationProblem::SectionOverflow { section, start, length } =>
                Problem::SectionOverflow { section: section@, start: *start, length: *length },
            ValidationProblem::SymbolOverflow { symbol, start, length } => Problem::SymbolOverflow {
                symbol: symbol@,
                start: *start,
                length: *length,
            },
        }
    }
}

/// How serious each kind of problem is: unknown mangling schemes and symbols without
/// a crate name are warnings, everything else is an error.
pub open spec fn level_of(p: Problem) -> ProblemLevel {
    match p {
        Problem::UnknownManglingScheme { .. } => ProblemLevel::Warning,
        Problem::NoCrateName { .. } => ProblemLevel::Warning,
        _ => ProblemLevel::Error,
    }
}

impl ValidationProblem {
    /// How serious this problem is.
    pub fn problem_level(&self) -> (r: ProblemLevel)
        ensures
            r == level_of(self@),
    {
        match self {
            ValidationProblem::SymbolTooBig { .. } => ProblemLevel::Error,
            ValidationProblem::SymbolPlacement { .. } => ProblemLevel::Error,
            ValidationProblem::SymbolAssignment { .. } => ProblemLevel::Error,
            ValidationProblem::ClassificationFailure { .. } => ProblemLevel::Error,
            ValidationProblem::UnknownManglingScheme { .. } => ProblemLevel::Warning,
            ValidationProblem::NoCrateName { .. } => ProblemLevel::Warning,
            ValidationProblem::NonExistentCrate { .. } => ProblemLevel::Error,
            ValidationProblem::NonExistentSection { .. } => ProblemLevel::Error,
            ValidationProblem::NonExistentSectionCrate { .. } => ProblemLevel::Error,
            ValidationProblem::InvalidGlobPattern { .. } => ProblemLevel::Error,
            ValidationProblem::InvalidNumber { .. } => ProblemLevel::Error,
            ValidationProblem::SectionOverflow { .. } => ProblemLevel::Error,
            ValidationProblem::SymbolOverflow { .. } => ProblemLevel::Error,
        }
    }
}

/// Errors that stop validation before any symbol is checked.
#[derive(Debug)]
pub enum ValidationError {
    FileError { err: std::io::Error, path: String },
    ObjectError(object::Error),
    GimliError(gimli::Error),
}

/// What a symbol is, as far as placement is concerned.
#[derive(Clone, Debug)]
pub enum SymbolClass {
    RustMangled { demangled: String, crate_name: String },
    RustNonMangled { name: String, crate_name: String },
    RustCrateLess,
    OtherLang,
    Defmt,
    Main,
    CortexMShenanigans,
    Ignored,
}

/// A symbol class with its texts taken as character sequences.
pub enum Class {
    RustMangled { demangled: Seq<char>, crate_name: Seq<char> },
    RustNonMangled { name: Seq<char>, crate_name: Seq<char> },
    RustCrateLess,
    OtherLang,
    Defmt,
    Main,
    CortexMShenanigans,
    Ignored,
}

impl View for SymbolClass {
    type V = Class;

    open spec fn view(&self) -> Class {
        match self {
            SymbolClass::RustMangled { demangled, crate_name } => Class::RustMangled {
                demangled: demangled@,
                crate_name: crate_name@,
            },
            SymbolClass::RustNonMangled { name, crate_name } => Class::RustNonMangled {
                name: name@,
                crate_name: crate_name@,
            },
            SymbolClass::RustCrateLess => Class::RustCrateLess,
            SymbolClass::OtherLang => Class::OtherLang,
            SymbolClass::Defmt => Class::Defmt,
            SymbolClass::Main => Class::Main,
            SymbolClass::CortexMShenanigans => Class::CortexMShenanigans,
            SymbolClass::Ignored => Class::Ignored,
        }
    }
}

/// What `rustc_demangle::try_demangle` makes of a symbol name, written out with its
/// `Display` form; `None` where it does not take the name for a Rust symbol.
pub uninterp spec fn rust_demangled(s: Seq<char>) -> Option<Seq<char>>;

/// Whether `glob::Pattern::new` accepts a pattern.
pub uninterp spec fn glob_compiles(pattern: Seq<char>) -> bool;

/// Whether `glob::Pattern::matches` (with the default options) matches a name
/// against a pattern.
pub uninterp spec fn glob_matches(pattern: Seq<char>, name: Seq<char>) -> bool;

/// Whether `char::is_numeric` holds of a character.
pub uninterp spec fn numeric_char(c: char) -> bool;

/// `rustc_demangle::try_demangle`: the demangled form of a Rust symbol name,
/// written out by its `Display` impl. The contract only names the result.
#[verifier::external_body]
fn try_demangle(s: &str) -> (r: Option<String>)
    ensures
        match rust_demangled(s@) {
            Some(d) => r matches Some(x) && x@ == d,
            None => r is None,
        },
{
    match rustc_demangle::try_demangle(s) {
        Ok(d) => Some(d.to_string()),
        Err(_) => None,
    }
}

/// `glob::Pattern::new` followed by `glob::Pattern::matches`: whether `name`
/// matches `pattern`, or the error for a pattern that does not compile. The
/// contract only names both results.
#[verifier::external_body]
fn glob_match(pattern: &str, name: &str) -> (r: Result<bool, glob::PatternError>)
    ensures
        r is Ok <==> glob_compiles(pattern@),
        r matches Ok(b) ==> b == glob_matches(pattern@, name@),
{
    match glob::Pattern::new(pattern) {
        Ok(p) => Ok(p.matches(name)),
        Err(e) => Err(e),
    }
}

/// Whether a character is a number to `char::is_numeric`: of the ASCII characters
/// exactly the digits, of the others those that [`numeric_char`] names.
pub open spec fn number_char(c: char) -> bool {
    if (c as u32) < 128 {
        '0' <= c <= '9'
    } else {
        numeric_char(c)
    }
}

/// `char::is_numeric`: whether the character has one of Unicode's general
/// categories for numbers. The contract names the result, and states that of the
/// ASCII characters exactly the digits `0` to `9` are numbers.
#[verifier::external_body]
fn is_numeric(c: char) -> (r: bool)
    ensures
        r == numeric_char(c),
        (c as u32) < 128 ==> (r <==> '0' <= c <= '9'),
{
    c.is_numeric()
}

/// Symbols that validation leaves alone: local anonymous data, compiler and
/// logging support, critical sections, and the reset and pre-init handlers.
pub open spec fn ignored_name(name: Seq<char>) -> bool {
    ||| starts_with(name, ".Lanon"@)
    ||| starts_with(name, "__aeabi"@)
    ||| starts_with(name, "__defmt"@)
    ||| starts_with(name, "_defmt"@)
    ||| starts_with(name, "_critical_section"@)
    ||| name == "Reset"@
    ||| name == "__DEFMT_MARKER_TIMESTAMP_WAS_DEFINED"@
    ||| name == "_MergedGlobals"@
    ||| name == "__pre_init"@
    ||| name == "pre_init"@
}

fn ignore(name: &Vec<char>) -> (r: bool)
    ensures
        r == ignored_name(name@),
{
    has_prefix(name, ".Lanon") || has_prefix(name, "__aeabi") || has_prefix(name, "__defmt")
        || has_prefix(name, "_defmt") || has_prefix(name, "_critical_section") || is_text(
        name,
        "Reset",
    ) || is_text(name, "__DEFMT_MARKER_TIMESTAMP_WAS_DEFINED") || is_text(name, "_MergedGlobals")
        || is_text(name, "__pre_init") || is_text(name, "pre_init")
}

/// Symbols of the `defmt` logging framework.
pub open spec fn defmt_symbol(name: Seq<char>, linkage: Seq<char>) -> bool {
    ||| (name == "DEFMT_LOG_STATEMENT"@ || name == "S"@) && find_from(
        linkage,
        "{\"package\":"@,
        0,
    ) is Some && find_from(linkage, "\"tag\":"@, 0) is Some
    ||| (name == "defmt_timestamp"@ || name == "default_panic"@ || name == "default_timestamp"@
        || name == "DEFMT_ENCODING"@ || name == "DEFMT_VERSION"@) && find_from(
        linkage,
        "_defmt"@,
        0,
    ) is Some
}

fn is_defmt(name: &Vec<char>, linkage: &Vec<char>) -> (r: bool)
    ensures
        r == defmt_symbol(name@, linkage@),
{
    ((is_text(name, "DEFMT_LOG_STATEMENT") || is_text(name, "S")) && has_text(
        linkage,
        "{\"package\":",
    ) && has_text(linkage, "\"tag\":")) || ((is_text(name, "defmt_timestamp") || is_text(
        name,
        "default_panic",
    ) || is_text(name, "default_timestamp") || is_text(name, "DEFMT_ENCODING") || is_text(
        name,
        "DEFMT_VERSION",
    )) && has_text(linkage, "_defmt"))
}

/// The position just after the first `c` at or after `pos`.
pub open spec fn skip_past(s: Seq<char>, pos: int, c: char) -> Option<int> {
    match find_from(s, seq![c], pos) {
        Some(i) => Some(i + 1),
        None => None,
    }
}

/// The first position from `q` on whose character is not numeric.
pub open spec fn number_end_from(s: Seq<char>, q: int) -> Option<int>
    decreases s.len() - q,
{
    if q < 0 || q >= s.len() {
        None
    } else if !number_char(s[q]) {
        Some(q)
    } else {
        number_end_from(s, q + 1)
    }
}

/// What the standard library's `usize` parsing makes of `s`.
pub open spec fn parse_usize_text(s: Seq<char>) -> Option<usize> {
    match parse_u64_text(s, 10) {
        Some(v) => if v <= usize::MAX {
            Some(v as usize)
        } else {
            None
        },
        None => None,
    }
}

/// A number read at `pos`: the character there and the numeric characters after it,
/// up to the first non-numeric character (which must exist); the number and the
/// position after it.
pub open spec fn read_number_at(s: Seq<char>, pos: int) -> Option<(usize, int)> {
    if pos < 0 || pos >= s.len() {
        None
    } else {
        match number_end_from(s, pos + 1) {
            None => None,
            Some(q) => match parse_usize_text(s.subrange(pos, q)) {
                Some(v) => Some((v, q)),
                None => None,
            },
        }
    }
}

/// At most `len` characters of `s` from position `from`.
pub open spec fn take_chars(s: Seq<char>, from: int, len: int) -> Seq<char> {
    if from + len <= s.len() {
        s.subrange(from, from + len)
    } else {
        s.subrange(from, s.len() as int)
    }
}

/// The crate name in a v0 mangled symbol: after the first `C` and the next `_`, a
/// length, an optional `_`, then that many characters.
pub open spec fn v0_crate(s: Seq<char>) -> Option<Seq<char>> {
    match skip_past(s, 0, 'C') {
        None => None,
        Some(p1) => match skip_past(s, p1, '_') {
            None => None,
            Some(p2) => match read_number_at(s, p2) {
                None => None,
                Some((len, q)) => {
                    let q2 = if q < s.len() && s[q] == '_' {
                        q + 1
                    } else {
                        q
                    };
                    Some(take_chars(s, q2, len as int))
                },
            },
        },
    }
}

/// The part of `s` before its first `..`.
pub open spec fn before_dots(s: Seq<char>) -> Seq<char> {
    match find_from(s, ".."@, 0) {
        Some(i) => s.subrange(0, i),
        None => s,
    }
}

/// The last position of `c` in `s[..k]`.
pub open spec fn last_index_before(s: Seq<char>, c: char, k: int) -> Option<int>
    decreases k,
{
    if k <= 0 || k > s.len() {
        None
    } else if s[k - 1] == c {
        Some(k - 1)
    } else {
        last_index_before(s, c, k - 1)
    }
}

/// The part of `s` after its last `$`.
pub open spec fn after_last_dollar(s: Seq<char>) -> Seq<char> {
    match last_index_before(s, '$', s.len() as int) {
        Some(i) => s.subrange(i + 1, s.len() as int),
        None => s,
    }
}

/// The crate name in a legacy mangled symbol: after the first `N`, a length and
/// that many characters; a name that starts with `_` is cut at its first `..` and
/// then at its last `$`.
pub open spec fn legacy_crate(s: Seq<char>) -> Option<Seq<char>> {
    match skip_past(s, 0, 'N') {
        None => None,
        Some(p) => match read_number_at(s, p) {
            None => None,
            Some((len, q)) => {
                let name = take_chars(s, q, len as int);
                if name.len() > 0 && name[0] == '_' {
                    Some(after_last_dollar(before_dots(name)))
                } else {
                    Some(name)
                }
            },
        },
    }
}

/// The crate a mangled symbol belongs to, by its scheme.
pub open spec fn crate_of_symbol(s: Seq<char>) -> Option<Seq<char>> {
    match mangling_of(s) {
        Some(ManglingVersion::Legacy) => legacy_crate(s),
        Some(ManglingVersion::V0) => v0_crate(s),
        None => None,
    }
}

/// The position just after the first `c` at or after `pos`.
fn skip_until(s: &Vec<char>, pos: usize, c: char) -> (r: Option<usize>)
    requires
        pos <= s@.len(),
    ensures
        r matches Some(p) ==> p <= s@.len(),
        match r {
            Some(p) => skip_past(s@, pos as int, c) == Some(p as int),
            None => skip_past(s@, pos as int, c) is None,
        },
{
    let mut cv: Vec<char> = Vec::new();
    cv.push(c);
    assert(cv@ =~= seq![c]);
    proof {
        lemma_find_from(s@, seq![c], pos as int);
    }
    match find_chars(s, &cv, pos) {
        Some(i) => {
            assert(i + 1 <= s.len());
            Some(i + 1)
        },
        None => None,
    }
}

/// Reads a number at `pos`, as [`read_number_at`] says.
fn read_number(s: &Vec<char>, pos: usize) -> (r: Option<(usize, usize)>)
    requires
        pos <= s@.len(),
    ensures
        r matches Some((_, q)) ==> q <= s@.len(),
        match r {
            Some((v, q)) => read_number_at(s@, pos as int) == Some((v, q as int)),
            None => read_number_at(s@, pos as int) is None,
        },
{
    if pos >= s.len() {
        return None;
    }
    let mut q = pos + 1;
    while q < s.len() && is_numeric(s[q])
        invariant
            pos < q <= s@.len(),
            number_end_from(s@, pos + 1) == number_end_from(s@, q as int),
        decreases s.len() - q,
    {
        q = q + 1;
    }
    if q >= s.len() {
        return None;
    }
    match parse_u64_range(s, pos, q, 10) {
        Some(v) => {
            if v <= usize::MAX as u64 {
                Some((v as usize, q))
            } else {
                None
            }
        },
        None => None,
    }
}

/// At most `len` characters of `s` from position `from`.
fn take(s: &Vec<char>, from: usize, len: usize) -> (r: Vec<char>)
    requires
        from <= s@.len(),
    ensures
        r@ == take_chars(s@, from as int, len as int),
{
    if len <= s.len() - from {
        sub_chars(s, from, from + len)
    } else {
        sub_chars(s, from, s.len())
    }
}

fn v0_extract(symbol: &Vec<char>) -> (r: Option<Vec<char>>)
    ensures
        match v0_crate(symbol@) {
            Some(n) => r matches Some(x) && x@ == n,
            None => r is None,
        },
{
    let p1 = skip_until(symbol, 0, 'C')?;
    let p2 = skip_until(symbol, p1, '_')?;
    let (len, q) = read_number(symbol, p2)?;
    let q2 = if q < symbol.len() && symbol[q] == '_' {
        q + 1
    } else {
        q
    };
    Some(take(symbol, q2, len))
}

fn before_double_dot(s: &Vec<char>) -> (r: Vec<char>)
    ensures
        r@ == before_dots(s@),
{
    let dots = chars_of("..");
    proof {
        lemma_find_from(s@, ".."@, 0);
    }
    match find_chars(s, &dots, 0) {
        Some(i) => sub_chars(s, 0, i),
        None => sub_chars(s, 0, s.len()),
    }
}

fn after_dollar(s: &Vec<char>) -> (r: Vec<char>)
    ensures
        r@ == after_last_dollar(s@),
{
    let mut k = s.len();
    while k > 0 && s[k - 1] != '$'
        invariant
            k <= s@.len(),
            last_index_before(s@, '$', s@.len() as int) == last_index_before(s@, '$', k as int),
        decreases k,
    {
        k = k - 1;
    }
    if k == 0 {
        sub_chars(s, 0, s.len())
    } else {
        sub_chars(s, k, s.len())
    }
}

fn legacy_extract(symbol: &Vec<char>) -> (r: Option<Vec<char>>)
    ensures
        match legacy_crate(symbol@) {
            Some(n) => r matches Some(x) && x@ == n,
            None => r is None,
        },
{
    let p = skip_until(symbol, 0, 'N')?;
    let (len, q) = read_number(symbol, p)?;
    let name = take(symbol, q, len);
    if name.len() > 0 && name[0] == '_' {
        let cut = before_double_dot(&name);
        Some(after_dollar(&cut))
    } else {
        Some(name)
    }
}

/// The crate a mangled symbol belongs to, or the problem that it has none.
fn extract_crate_name(symbol: &Vec<char>) -> (r: Result<Vec<char>, ValidationProblem>)
    ensures
        match crate_of_symbol(symbol@) {
            Some(n) => r matches Ok(x) && x@ == n,
            None => r matches Err(p) && p@ == (Problem::NoCrateName { name: symbol@ }),
        },
{
    let found = match ManglingVersion::from_prefix_chars(symbol) {
        Some(ManglingVersion::Legacy) => legacy_extract(symbol),
        Some(ManglingVersion::V0) => v0_extract(symbol),
        None => None,
    };
    match found {
        Some(n) => Ok(n),
        None => Err(ValidationProblem::NoCrateName { name: string_from_chars(symbol) }),
    }
}

/// What a symbol that has debug information is, from its name, its linkage name and
/// the top-level namespace it was declared in.
pub open spec fn classify_rust(name: Seq<char>, linkage: Seq<char>, ns: Option<Seq<char>>) -> Result<
    Class,
    Problem,
> {
    if ignored_name(name) {
        Ok(Class::Ignored)
    } else if rust_demangled(linkage) is Some {
        let demangled = rust_demangled(linkage)->0;
        match crate_of_symbol(linkage) {
            Some(c) => Ok(Class::RustMangled { demangled, crate_name: c }),
            None => match ns {
                Some(n) => Ok(Class::RustMangled { demangled, crate_name: n }),
                None => Err(Problem::NoCrateName { name: linkage }),
            },
        }
    } else if defmt_symbol(name, linkage) {
        Ok(Class::Defmt)
    } else if linkage == "main"@ {
        Ok(Class::Main)
    } else if starts_with(name, "__cortex_m_rt"@) || name == "__ONCE__"@ {
        Ok(Class::CortexMShenanigans)
    } else {
        Err(Problem::UnknownManglingScheme { name, mangled_name: linkage })
    }
}

/// An optional text taken as a character sequence.
pub open spec fn opt_chars(o: Option<Vec<char>>) -> Option<Seq<char>> {
    match o {
        Some(v) => Some(v@),
        None => None,
    }
}

/// A classification outcome with its values taken by their views.
pub open spec fn class_outcome(r: Result<SymbolClass, ValidationProblem>) -> Result<Class, Problem> {
    match r {
        Ok(c) => Ok(c@),
        Err(p) => Err(p@),
    }
}

/// Classifies a symbol that has debug information.
pub fn classify_rust_symbol(name: &Vec<char>, linkage_name: &Vec<char>, namespace_root: &Option<Vec<char>>) -> (r: Result<
    SymbolClass,
    ValidationProblem,
>)
    ensures
        class_outcome(r) == classify_rust(name@, linkage_name@, opt_chars(*namespace_root)),
{
    if ignore(name) {
        return Ok(SymbolClass::Ignored);
    }
    let linkage = string_from_chars(linkage_name);
    let linkage_str = linkage.as_str();
    assert(linkage_str@ == linkage_name@);
    match try_demangle(linkage_str) {
        Some(demangled) => {
            let crate_name = match extract_crate_name(linkage_name) {
                Ok(n) => n,
                Err(e) => match namespace_root {
                    Some(n) => {
                        let c = sub_chars(n, 0, n.len());
                        assert(c@ =~= n@);
                        c
                    },
                    None => return Err(e),
                },
            };
            return Ok(
                SymbolClass::RustMangled { demangled, crate_name: string_from_chars(&crate_name) },
            );
        },
        None => {},
    }
    if is_defmt(name, linkage_name) {
        return Ok(SymbolClass::Defmt);
    }
    if is_text(linkage_name, "main") {
        return Ok(SymbolClass::Main);
    }
    if has_prefix(name, "__cortex_m_rt") || is_text(name, "__ONCE__") {
        return Ok(SymbolClass::CortexMShenanigans);
    }
    Err(
        ValidationProblem::UnknownManglingScheme {
            name: string_from_chars(name),
            mangled_name: linkage,
        },
    )
}

/// What a symbol without debug information is: only Rust-mangled names are
/// understood, with no namespace to fall back on.
pub open spec fn classify_late(name: Seq<char>) -> Result<Class, Problem> {
    if starts_with(name, "_R"@) || starts_with(name, "_ZN"@) {
        classify_rust(Seq::empty(), name, None)
    } else {
        Err(Problem::ClassificationFailure { name })
    }
}

/// Classifies a symbol that has no debug information.
pub fn late_classify(name: &Vec<char>) -> (r: Result<SymbolClass, ValidationProblem>)
    ensures
        class_outcome(r) == classify_late(name@),
{
    if has_prefix(name, "_R") || has_prefix(name, "_ZN") {
        let empty: Vec<char> = Vec::new();
        assert(empty@ =~= Seq::<char>::empty());
        classify_rust_symbol(&empty, name, &None)
    } else {
        Err(ValidationProblem::ClassificationFailure { name: string_from_chars(name) })
    }
}

/// The kind of a debug-information entry, as far as classification is concerned.
#[derive(Clone, Copy, Debug, PartialEq, Eq, Structural)]
pub enum EntryTag {
    Namespace,
    Subprogram,
    Variable,
    Other,
}

/// An entry of a unit's debug information below the unit's root: its depth below
/// the root, its tag, and its name and linkage name where present and readable.
#[derive(Clone, Debug)]
pub struct DebugEntry {
    pub depth: isize,
    pub tag: EntryTag,
    pub name: Option<String>,
    pub linkage_name: Option<String>,
}

/// A compilation unit of the debug information: whether its root gives Rust as
/// the language, and its other entries in depth-first order.
#[derive(Clone, Debug)]
pub struct DebugUnit {
    pub is_rust: bool,
    pub entries: Vec<DebugEntry>,
}

/// An optional `String` taken as a character sequence.
pub open spec fn opt_text(o: Option<String>) -> Option<Seq<char>> {
    match o {
        Some(v) => Some(v@),
        None => None,
    }
}

/// Classes found so far, each under the name it was found with (a name occurs at
/// most once), the problems met, and the top-level namespace of the current entry.
pub struct ClassifyState {
    pub classes: Seq<(Seq<char>, Class)>,
    pub problems: Seq<Problem>,
    pub ns: Option<Seq<char>>,
}

/// Index of the entry for name `k`, from `i` on.
pub open spec fn key_index_from(cs: Seq<(Seq<char>, Class)>, k: Seq<char>, i: int) -> Option<int>
    decreases cs.len() - i,
{
    if i < 0 || i >= cs.len() {
        None
    } else if cs[i].0 == k {
        Some(i)
    } else {
        key_index_from(cs, k, i + 1)
    }
}

/// Index of the entry for name `k`.
pub open spec fn key_index(cs: Seq<(Seq<char>, Class)>, k: Seq<char>) -> Option<int> {
    key_index_from(cs, k, 0)
}

/// The classes with `c` recorded under name `k`, replacing what was there.
pub open spec fn put_class(cs: Seq<(Seq<char>, Class)>, k: Seq<char>, c: Class) -> Seq<(Seq<char>, Class)> {
    match key_index(cs, k) {
        Some(i) => cs.update(i, (k, c)),
        None => cs.push((k, c)),
    }
}

/// The class recorded under name `k`, if any.
pub open spec fn class_of(cs: Seq<(Seq<char>, Class)>, k: Seq<char>) -> Option<Class> {
    match key_index(cs, k) {
        Some(i) => Some(cs[i].1),
        None => None,
    }
}

/// The classes without name `k`.
pub open spec fn drop_class(cs: Seq<(Seq<char>, Class)>, k: Seq<char>) -> Seq<(Seq<char>, Class)> {
    match key_index(cs, k) {
        Some(i) => cs.remove(i),
        None => cs,
    }
}

/// One entry of a unit's debug information: a depth-one entry of a Rust unit sets
/// the current namespace (to its name if it is a namespace, else to none; a
/// namespace is then done), a subprogram or variable with a name is classified and
/// recorded under its linkage name (or, for one without a linkage name, under its
/// name, as belonging to the current namespace's crate).
pub open spec fn classify_entry(st: ClassifyState, is_rust: bool, e: DebugEntry) -> ClassifyState {
    let ns = if !is_rust {
        None
    } else if e.depth == 1 {
        if e.tag == EntryTag::Namespace {
            opt_text(e.name)
        } else {
            None
        }
    } else {
        st.ns
    };
    let st1 = ClassifyState { ns, ..st };
    if is_rust && e.depth == 1 && e.tag == EntryTag::Namespace {
        st1
    } else if !(e.tag == EntryTag::Subprogram || e.tag == EntryTag::Variable) {
        st1
    } else {
        match e.name {
            None => st1,
            Some(name) => if !is_rust {
                ClassifyState { classes: put_class(st1.classes, name@, Class::OtherLang), ..st1 }
            } else {
                match e.linkage_name {
                    Some(l) => match classify_rust(name@, l@, ns) {
                        Ok(c) => ClassifyState { classes: put_class(st1.classes, l@, c), ..st1 },
                        Err(p) => ClassifyState { problems: st1.problems.push(p), ..st1 },
                    },
                    None => match ns {
                        None => ClassifyState {
                            classes: put_class(st1.classes, name@, Class::RustCrateLess),
                            ..st1
                        },
                        Some(n) => ClassifyState {
                            classes: put_class(
                                st1.classes,
                                name@,
                                Class::RustNonMangled { name: name@, crate_name: n },
                            ),
                            ..st1
                        },
                    },
                }
            },
        }
    }
}

/// The first `n` entries of a unit, one after the other.
pub open spec fn classify_entries(st: ClassifyState, is_rust: bool, es: Seq<DebugEntry>, n: int) -> ClassifyState
    decreases n,
{
    if n <= 0 {
        st
    } else {
        classify_entry(classify_entries(st, is_rust, es, n - 1), is_rust, es[n - 1])
    }
}

/// The first `n` units, one after the other, each starting outside any namespace.
pub open spec fn classify_units(st: ClassifyState, us: Seq<DebugUnit>, n: int) -> ClassifyState
    decreases n,
{
    if n <= 0 {
        st
    } else {
        let prev = classify_units(st, us, n - 1);
        let u = us[n - 1];
        classify_entries(ClassifyState { ns: None, ..prev }, u.is_rust, u.entries@, u.entries@.len() as int)
    }
}

/// Classes as recorded, with their texts taken as character sequences.
pub open spec fn classes_view(v: Seq<(Vec<char>, SymbolClass)>) -> Seq<(Seq<char>, Class)> {
    v.map_values(|p: (Vec<char>, SymbolClass)| (p.0@, p.1@))
}

/// Problems with their texts taken as character sequences.
pub open spec fn problems_view(v: Seq<ValidationProblem>) -> Seq<Problem> {
    v.map_values(|p: ValidationProblem| p@)
}

/// Index of the class recorded under `k`.
fn find_class(v: &Vec<(Vec<char>, SymbolClass)>, k: &Vec<char>) -> (r: Option<usize>)
    ensures
        match r {
            Some(i) => key_index(classes_view(v@), k@) == Some(i as int) && i < v@.len(),
            None => key_index(classes_view(v@), k@) is None,
        },
{
    let mut i: usize = 0;
    while i < v.len()
        invariant
            i <= v@.len(),
            key_index(classes_view(v@), k@) == key_index_from(classes_view(v@), k@, i as int),
        decreases v.len() - i,
    {
        if chars_equal(&v[i].0, k) {
            return Some(i);
        }
        i = i + 1;
    }
    None
}

/// Records class `c` under name `k`.
fn record_class(v: &mut Vec<(Vec<char>, SymbolClass)>, k: Vec<char>, c: SymbolClass)
    ensures
        classes_view(final(v)@) == put_class(classes_view(old(v)@), k@, c@),
{
    match find_class(v, &k) {
        Some(i) => {
            v.set(i, (k, c));
            assert(classes_view(v@) =~= classes_view(old(v)@).update(i as int, (k@, c@)));
        },
        None => {
            v.push((k, c));
            assert(classes_view(v@) =~= classes_view(old(v)@).push((k@, c@)));
        },
    }
}

/// Appends a problem.
fn add_problem(problems: &mut Vec<ValidationProblem>, p: ValidationProblem)
    ensures
        problems_view(final(problems)@) == problems_view(old(problems)@).push(p@),
{
    problems.push(p);
    assert(problems_view(problems@) =~= problems_view(old(problems)@).push(p@));
}

/// Characters of an optional `String`.
fn opt_chars_of(o: &Option<String>) -> (r: Option<Vec<char>>)
    ensures
        opt_chars(r) == opt_text(*o),
{
    match o {
        Some(s) => Some(chars_of(s.as_str())),
        None => None,
    }
}

/// The classification state with exec values taken by their views.
pub open spec fn state_of(
    classes: Seq<(Vec<char>, SymbolClass)>,
    problems: Seq<ValidationProblem>,
    ns: Option<Vec<char>>,
) -> ClassifyState {
    ClassifyState { classes: classes_view(classes), problems: problems_view(problems), ns: opt_chars(ns) }
}

/// Takes one debug-information entry into account.
fn classify_entry_exec(
    res: &mut Vec<(Vec<char>, SymbolClass)>,
    problems: &mut Vec<ValidationProblem>,
    ns: &mut Option<Vec<char>>,
    is_rust: bool,
    e: &DebugEntry,
)
    ensures
        state_of(final(res)@, final(problems)@, *final(ns)) == classify_entry(
            state_of(old(res)@, old(problems)@, *old(ns)),
            is_rust,
            *e,
        ),
{
    if !is_rust {
        *ns = None;
    } else if e.depth == 1 {
        if e.tag == EntryTag::Namespace {
            *ns = opt_chars_of(&e.name);
            return;
        } else {
            *ns = None;
        }
    }
    if !(e.tag == EntryTag::Subprogram || e.tag == EntryTag::Variable) {
        return;
    }
    let name = match &e.name {
        Some(n) => chars_of(n.as_str()),
        None => return ,
    };
    if !is_rust {
        record_class(res, name, SymbolClass::OtherLang);
        return;
    }
    match &e.linkage_name {
        Some(l) => {
            let lc = chars_of(l.as_str());
            match classify_rust_symbol(&name, &lc, &*ns) {
                Ok(c) => record_class(res, lc, c),
                Err(p) => add_problem(problems, p),
            }
        },
        None => match &*ns {
            None => record_class(res, name, SymbolClass::RustCrateLess),
            Some(n) => {
                let crate_name = string_from_chars(n);
                let own = string_from_chars(&name);
                record_class(res, name, SymbolClass::RustNonMangled { name: own, crate_name });
            },
        },
    }
}

/// Classifies the symbols that the debug information of a binary describes, unit
/// by unit, appending the problems met to `problems`. The result holds each class
/// under the name it was found with.
pub fn classify_symbols(problems: &mut Vec<ValidationProblem>, units: &Vec<DebugUnit>) -> (r: Vec<
    (Vec<char>, SymbolClass),
>)
    ensures
        ({
            let st = classify_units(
                ClassifyState {
                    classes: Seq::empty(),
                    problems: problems_view(old(problems)@),
                    ns: None,
                },
                units@,
                units@.len() as int,
            );
            classes_view(r@) == st.classes && problems_view(final(problems)@) == st.problems
        }),
{
    let mut res: Vec<(Vec<char>, SymbolClass)> = Vec::new();
    let ghost init = ClassifyState {
        classes: Seq::empty(),
        problems: problems_view(problems@),
        ns: None,
    };
    assert(classes_view(res@) =~= Seq::empty());
    let mut ui: usize = 0;
    while ui < units.len()
        invariant
            ui <= units@.len(),
            ({
                let st = classify_units(init, units@, ui as int);
                classes_view(res@) == st.classes && problems_view(problems@) == st.problems
            }),
        decreases units.len() - ui,
    {
        let unit = &units[ui];
        let is_rust = unit.is_rust;
        let mut ns: Option<Vec<char>> = None;
        let ghost start = ClassifyState { ns: None, ..classify_units(init, units@, ui as int) };
        let mut ei: usize = 0;
        while ei < unit.entries.len()
            invariant
                ei <= unit.entries@.len(),
                state_of(res@, problems@, ns) == classify_entries(
                    start,
                    is_rust,
                    unit.entries@,
                    ei as int,
                ),
            decreases unit.entries.len() - ei,
        {
            classify_entry_exec(&mut res, problems, &mut ns, is_rust, &unit.entries[ei]);
            ei = ei + 1;
        }
        ui = ui + 1;
    }
    res
}

/// A symbol of the binary's symbol table: its name where it is readable, its address
/// and size, and the name of its section where it has one.
#[derive(Clone, Debug)]
pub struct BinarySymbol {
    pub name: Option<String>,
    pub address: u64,
    pub size: u64,
    pub section: Option<String>,
}

/// A symbol to be checked: its name, its class, and where it was placed.
#[derive(Clone, Debug)]
pub struct ValidationSymbol {
    pub name: String,
    pub class: SymbolClass,
    pub section: String,
    pub address: u64,
    pub size: u64,
}

/// A symbol to be checked, with its texts taken as character sequences.
pub struct Sym {
    pub name: Seq<char>,
    pub class: Class,
    pub section: Seq<char>,
    pub address: u64,
    pub size: u64,
}

impl View for ValidationSymbol {
    type V = Sym;

    open spec fn view(&self) -> Sym {
        Sym {
            name: self.name@,
            class: self.class@,
            section: self.section@,
            address: self.address,
            size: self.size,
        }
    }
}

/// A local label (`.L...`) that holds a `_` names the symbol from that `_` on.
pub open spec fn trimmed_name(n: Seq<char>) -> Seq<char> {
    if starts_with(n, ".L"@) && find_from(n, "_"@, 0) is Some {
        n.subrange(find_from(n, "_"@, 0)->0, n.len() as int)
    } else {
        n
    }
}

/// The classes left, the problems met and the symbols taken so far.
pub struct LoadState {
    pub classes: Seq<(Seq<char>, Class)>,
    pub problems: Seq<Problem>,
    pub symbols: Seq<Sym>,
}

/// Keeps a classified symbol where it has a section.
pub open spec fn keep_symbol(st: LoadState, b: BinarySymbol, name: Seq<char>, c: Class) -> LoadState {
    match b.section {
        Some(sec) => LoadState {
            symbols: st.symbols.push(
                Sym { name, class: c, section: sec@, address: b.address, size: b.size },
            ),
            ..st
        },
        None => st,
    }
}

/// One symbol of the symbol table: unnamed, empty and ignored symbols are skipped;
/// the class found in the debug information is taken out of the classes (a
/// symbol with no crate is a problem), and a symbol with none is classified by
/// its name alone.
pub open spec fn load_symbol(st: LoadState, b: BinarySymbol) -> LoadState {
    match b.name {
        None => st,
        Some(raw) => {
            let name = trimmed_name(raw@);
            if b.size == 0 || ignored_name(name) {
                st
            } else {
                let st1 = LoadState { classes: drop_class(st.classes, name), ..st };
                match class_of(st.classes, name) {
                    Some(Class::RustCrateLess) => LoadState {
                        problems: st1.problems.push(Problem::NoCrateName { name }),
                        ..st1
                    },
                    Some(c) => keep_symbol(st1, b, name, c),
                    None => match classify_late(name) {
                        Ok(c) => keep_symbol(st1, b, name, c),
                        Err(p) => LoadState { problems: st1.problems.push(p), ..st1 },
                    },
                }
            }
        },
    }
}

/// The first `n` symbols of the symbol table, one after the other.
pub open spec fn load_symbols(st: LoadState, bs: Seq<BinarySymbol>, n: int) -> LoadState
    decreases n,
{
    if n <= 0 {
        st
    } else {
        load_symbol(load_symbols(st, bs, n - 1), bs[n - 1])
    }
}

/// Symbols with their texts taken as character sequences.
pub open spec fn symbols_view(v: Seq<ValidationSymbol>) -> Seq<Sym> {
    v.map_values(|s: ValidationSymbol| s@)
}

/// The load state with exec values taken by their views.
pub open spec fn load_state_of(
    classes: Seq<(Vec<char>, SymbolClass)>,
    problems: Seq<ValidationProblem>,
    symbols: Seq<ValidationSymbol>,
) -> LoadState {
    LoadState {
        classes: classes_view(classes),
        problems: problems_view(problems),
        symbols: symbols_view(symbols),
    }
}

/// The name a symbol is known by.
fn trim_name(n: &Vec<char>) -> (r: Vec<char>)
    ensures
        r@ == trimmed_name(n@),
{
    let underscore = chars_of("_");
    if has_prefix(n, ".L") {
        match find_chars(n, &underscore, 0) {
            Some(i) => {
                proof {
                    lemma_find_from(n@, "_"@, 0);
                }
                return sub_chars(n, i, n.len());
            },
            None => {},
        }
    }
    sub_chars(n, 0, n.len())
}

/// Takes the class recorded under `k` out of the classes.
fn take_class(v: &mut Vec<(Vec<char>, SymbolClass)>, k: &Vec<char>) -> (r: Option<SymbolClass>)
    ensures
        classes_view(final(v)@) == drop_class(classes_view(old(v)@), k@),
        match r {
            Some(c) => class_of(classes_view(old(v)@), k@) == Some(c@),
            None => class_of(classes_view(old(v)@), k@) is None,
        },
{
    match find_class(v, k) {
        Some(i) => {
            let (_, c) = v.remove(i);
            assert(classes_view(v@) =~= classes_view(old(v)@).remove(i as int));
            Some(c)
        },
        None => None,
    }
}

/// Adds a classified symbol to `out` where it has a section.
fn keep(out: &mut Vec<ValidationSymbol>, b: &BinarySymbol, name: &Vec<char>, c: SymbolClass)
    ensures
        ({
            let st = keep_symbol(
                LoadState { classes: Seq::empty(), problems: Seq::empty(), symbols: symbols_view(old(out)@) },
                *b,
                name@,
                c@,
            );
            symbols_view(final(out)@) == st.symbols
        }),
{
    match &b.section {
        Some(sec) => {
            let s = ValidationSymbol {
                name: string_from_chars(name),
                class: c,
                section: sec.clone(),
                address: b.address,
                size: b.size,
            };
            out.push(s);
            assert(symbols_view(out@) =~= symbols_view(old(out)@).push(s@));
        },
        None => {},
    }
}

/// The symbols to be checked and the problems met (after `problems`), given the
/// debug information and the symbol table of a binary.
pub open spec fn loaded(units: Seq<DebugUnit>, symbols: Seq<BinarySymbol>, problems: Seq<Problem>) -> LoadState {
    let cl = classify_units(
        ClassifyState { classes: Seq::empty(), problems, ns: None },
        units,
        units.len() as int,
    );
    load_symbols(
        LoadState { classes: cl.classes, problems: cl.problems, symbols: Seq::empty() },
        symbols,
        symbols.len() as int,
    )
}

/// Takes one symbol of the symbol table into account.
fn load_one(
    out: &mut Vec<ValidationSymbol>,
    classes: &mut Vec<(Vec<char>, SymbolClass)>,
    problems: &mut Vec<ValidationProblem>,
    b: &BinarySymbol,
)
    ensures
        load_state_of(final(classes)@, final(problems)@, final(out)@) == load_symbol(
            load_state_of(old(classes)@, old(problems)@, old(out)@),
            *b,
        ),
{
    let raw = match &b.name {
        Some(n) => chars_of(n.as_str()),
        None => return ,
    };
    let name = trim_name(&raw);
    if b.size == 0 || ignore(&name) {
        return ;
    }
    let found = take_class(classes, &name);
    match found {
        Some(SymbolClass::RustCrateLess) => {
            add_problem(problems, ValidationProblem::NoCrateName { name: string_from_chars(&name) });
        },
        Some(c) => {
            keep(out, b, &name, c);
        },
        None => match late_classify(&name) {
            Ok(c) => {
                keep(out, b, &name, c);
            },
            Err(p) => {
                add_problem(problems, p);
            },
        },
    }
}

/// The symbols of a binary that are to be checked: the symbol table (`symbols`)
/// read against the classes that its debug information (`units`) gives. The
/// problems met are appended to `problems`.
pub fn load_binary(
    problems: &mut Vec<ValidationProblem>,
    units: &Vec<DebugUnit>,
    symbols: &Vec<BinarySymbol>,
) -> (r: Vec<ValidationSymbol>)
    ensures
        ({
            let st = loaded(units@, symbols@, problems_view(old(problems)@));
            symbols_view(r@) == st.symbols && problems_view(final(problems)@) == st.problems
        }),
{
    let mut classes = classify_symbols(problems, units);
    let mut out: Vec<ValidationSymbol> = Vec::new();
    let ghost init = load_state_of(classes@, problems@, out@);
    assert(symbols_view(out@) =~= Seq::empty());
    let mut i: usize = 0;
    while i < symbols.len()
        invariant
            i <= symbols@.len(),
            load_state_of(classes@, problems@, out@) == load_symbols(init, symbols@, i as int),
        decreases symbols.len() - i,
    {
        load_one(&mut out, &mut classes, problems, &symbols[i]);
        i = i + 1;
    }
    out
}

/// Who placed a symbol in its section: the crate it belongs to, or a symbol pattern.
#[derive(Clone, Copy, Debug, PartialEq, Eq, Structural)]
pub enum OwnerType {
    Crate,
    Custom,
}

impl OwnerType {
    /// How the owner is introduced in messages.
    pub open spec fn text(self) -> Seq<char> {
        match self {
            OwnerType::Crate => "crate"@,
            OwnerType::Custom => "custom pattern"@,
        }
    }

    /// How the owner is introduced in messages.
    pub fn to_string(&self) -> (r: String)
        ensures
            r@ == self.text(),
    {
        match self {
            OwnerType::Crate => String::from_str("crate"),
            OwnerType::Custom => String::from_str("custom pattern"),
        }
    }
}

/// The section a symbol should be in, and who put it there.
#[derive(Debug)]
pub struct Assignment {
    pub owner: String,
    pub section_name: String,
    pub section: Section,
    pub owner_type: OwnerType,
}

/// An assignment with its texts taken as character sequences.
pub struct Assign {
    pub owner: Seq<char>,
    pub section_name: Seq<char>,
    pub section: Section,
    pub owner_type: OwnerType,
}

impl View for Assignment {
    type V = Assign;

    open spec fn view(&self) -> Assign {
        Assign {
            owner: self.owner@,
            section_name: self.section_name@,
            section: self.section,
            owner_type: self.owner_type,
        }
    }
}

/// An assignment outcome with its values taken by their views.
pub open spec fn assign_outcome(r: Result<Option<Assignment>, ValidationProblem>) -> Result<
    Option<Assign>,
    Problem,
> {
    match r {
        Ok(Some(a)) => Ok(Some(a@)),
        Ok(None) => Ok(None),
        Err(p) => Err(p@),
    }
}

/// Index of the first crate, from `k` on, whose name reads `name` in symbols.
pub open spec fn crate_for_symbol_from(crates: Seq<(String, Crate)>, name: Seq<char>, k: int) -> Option<int>
    decreases crates.len() - k,
{
    if k < 0 || k >= crates.len() {
        None
    } else if underscored(crates[k].1.name@) == name {
        Some(k)
    } else {
        crate_for_symbol_from(crates, name, k + 1)
    }
}

/// Where the crate named `crate_name` in symbols was assigned, for symbol `symbol`.
pub open spec fn crate_assignment(
    symbol: Seq<char>,
    crate_name: Seq<char>,
    crates: Seq<(String, Crate)>,
    secs: Seq<(String, Section)>,
) -> Result<Option<Assign>, Problem> {
    match crate_for_symbol_from(crates, crate_name, 0) {
        None => Err(Problem::NonExistentCrate { name: symbol, crate_name }),
        Some(i) => {
            let c = crates[i].1;
            match c.assignment {
                None => Ok(None),
                Some(a) => match section_index(secs, a.name@) {
                    None => Err(Problem::NonExistentSectionCrate { crate_name: c.name@, section: a.name@ }),
                    Some(j) => Ok(
                        Some(
                            Assign {
                                owner: c.name@,
                                section_name: a.name@,
                                section: secs[j].1,
                                owner_type: OwnerType::Crate,
                            },
                        ),
                    ),
                },
            }
        },
    }
}

/// The first symbol pattern, from `k` on, that matches `symbol`, and where it
/// places it; every pattern up to the one that matches must compile.
pub open spec fn custom_from(
    syms: Seq<(String, SymPlacement)>,
    secs: Seq<(String, Section)>,
    symbol: Seq<char>,
    k: int,
) -> Result<Option<Assign>, Problem>
    decreases syms.len() - k,
{
    if k < 0 || k >= syms.len() {
        Ok(None)
    } else {
        let pattern = syms[k].0@;
        let section = syms[k].1.section@;
        if !glob_compiles(pattern) {
            Err(Problem::InvalidGlobPattern { pattern })
        } else if glob_matches(pattern, symbol) {
            match section_index(secs, section) {
                None => Err(Problem::NonExistentSection { symbol, section }),
                Some(j) => Ok(
                    Some(
                        Assign {
                            owner: pattern,
                            section_name: section,
                            section: secs[j].1,
                            owner_type: OwnerType::Custom,
                        },
                    ),
                ),
            }
        } else {
            custom_from(syms, secs, symbol, k + 1)
        }
    }
}

/// Where the symbol patterns of the configuration place `symbol`, if anywhere.
pub open spec fn custom_assignment(config: Config, symbol: Seq<char>) -> Result<Option<Assign>, Problem> {
    match config.symbols {
        Some(syms) => custom_from(syms@, config.sections@, symbol, 0),
        None => Ok(None),
    }
}

/// Where a symbol should be: a symbol pattern decides first, else the crate a Rust
/// symbol belongs to; other symbols are not placed.
pub open spec fn assignment_of(sym: Sym, crates: Seq<(String, Crate)>, config: Config) -> Result<
    Option<Assign>,
    Problem,
> {
    match custom_assignment(config, sym.name) {
        Err(p) => Err(p),
        Ok(Some(a)) => Ok(Some(a)),
        Ok(None) => match sym.class {
            Class::RustMangled { crate_name, .. } => crate_assignment(
                sym.name,
                crate_name,
                crates,
                config.sections@,
            ),
            Class::RustNonMangled { crate_name, .. } => crate_assignment(
                sym.name,
                crate_name,
                crates,
                config.sections@,
            ),
            _ => Ok(None),
        },
    }
}

/// A section name without its leading dots.
pub open spec fn trim_dots(s: Seq<char>) -> Seq<char>
    decreases s.len(),
{
    if s.len() > 0 && s[0] == '.' {
        trim_dots(s.drop_first())
    } else {
        s
    }
}

/// How the owner of an assignment is written in a message.
pub open spec fn owner_text(a: Assign) -> Seq<char> {
    a.owner_type.text() + ": \""@ + a.owner + "\""@
}

/// What is wrong with where a symbol was placed, if anything: it must be in its
/// assigned section (by name), the section's bounds must be numbers that fit,
/// the symbol must start within the section (its end counting as within) and
/// must end by the section's end.
pub open spec fn placement_problem(sym: Sym, crates: Seq<(String, Crate)>, config: Config) -> Option<
    Problem,
> {
    match assignment_of(sym, crates, config) {
        Err(p) => Some(p),
        Ok(None) => None,
        Ok(Some(a)) => {
            let actual = trim_dots(sym.section);
            let origin = a.section.origin.spec_bytes();
            let length = a.section.length.spec_bytes();
            if a.section_name != actual {
                Some(
                    Problem::SymbolAssignment {
                        name: sym.name,
                        owner: owner_text(a),
                        correct_section: a.section_name,
                        actual_section: actual,
                    },
                )
            } else if origin > u64::MAX || length > u64::MAX {
                Some(Problem::InvalidNumber { number: unit_text(a.section.origin) })
            } else if origin + length > u64::MAX {
                Some(
                    Problem::SectionOverflow {
                        section: a.section_name,
                        start: origin as u64,
                        length: length as u64,
                    },
                )
            } else if sym.address < origin || sym.address > origin + length {
                Some(
                    Problem::SymbolPlacement {
                        name: sym.name,
                        section_name: a.section_name,
                        symbol_position: sym.address,
                        section_start: origin as u64,
                        section_end: (origin + length) as u64,
                    },
                )
            } else if sym.address + sym.size > u64::MAX {
                Some(Problem::SymbolOverflow { symbol: sym.name, start: sym.address, length: sym.size })
            } else if sym.address + sym.size > origin + length {
                Some(
                    Problem::SymbolTooBig {
                        name: sym.name,
                        section_name: a.section_name,
                        symbol_start: sym.address,
                        symbol_end: (sym.address + sym.size) as u64,
                        section_end: (origin + length) as u64,
                    },
                )
            } else {
                None
            }
        },
    }
}

/// Index of the first crate whose name reads `name` in symbols.
fn find_crate_for_symbol(crates: &Vec<(String, Crate)>, name: &Vec<char>) -> (r: Option<usize>)
    ensures
        match r {
            Some(i) => crate_for_symbol_from(crates@, name@, 0) == Some(i as int) && i < crates@.len(),
            None => crate_for_symbol_from(crates@, name@, 0) is None,
        },
{
    let mut i: usize = 0;
    while i < crates.len()
        invariant
            i <= crates@.len(),
            crate_for_symbol_from(crates@, name@, 0) == crate_for_symbol_from(crates@, name@, i as int),
        decreases crates.len() - i,
    {
        let u = dashes_to_underscores(&crates[i].1.name);
        if chars_equal(&u, name) {
            return Some(i);
        }
        i = i + 1;
    }
    None
}

/// A copy of a section.
fn copy_section(s: &Section) -> (r: Section)
    ensures
        r == *s,
{
    Section { origin: s.origin, length: s.length, priority: s.priority, default: s.default }
}

/// Where the crate named `crate_name` in symbols was assigned, for the symbol
/// `symbol_name`.
pub fn get_assignment_with_crate(
    symbol_name: &Vec<char>,
    crate_name: &String,
    assignments: &DepTree,
    config: &Config,
) -> (r: Result<Option<Assignment>, ValidationProblem>)
    ensures
        assign_outcome(r) == crate_assignment(
            symbol_name@,
            crate_name@,
            assignments.crates@,
            config.sections@,
        ),
{
    let wanted = chars_of(crate_name.as_str());
    let i = match find_crate_for_symbol(&assignments.crates, &wanted) {
        Some(i) => i,
        None => {
            return Err(
                ValidationProblem::NonExistentCrate {
                    name: string_from_chars(symbol_name),
                    crate_name: crate_name.clone(),
                },
            );
        },
    };
    let assigned_crate = &assignments.crates[i].1;
    let assigned_section = match &assigned_crate.assignment {
        Some(a) => a,
        None => {
            return Ok(None);
        },
    };
    match find_section(&config.sections, &assigned_section.name) {
        Some(j) => Ok(
            Some(
                Assignment {
                    owner: assigned_crate.name.clone(),
                    section_name: assigned_section.name.clone(),
                    section: copy_section(&config.sections[j].1),
                    owner_type: OwnerType::Crate,
                },
            ),
        ),
        None => Err(
            ValidationProblem::NonExistentSectionCrate {
                crate_name: assigned_crate.name.clone(),
                section: assigned_section.name.clone(),
            },
        ),
    }
}

/// Where the symbol patterns of the configuration place `symbol_name`: the first
/// pattern that matches decides.
pub fn check_custom_symbol_placement(symbol_name: &Vec<char>, config: &Config) -> (r: Result<
    Option<Assignment>,
    ValidationProblem,
>)
    ensures
        assign_outcome(r) == custom_assignment(*config, symbol_name@),
{
    let symbols = match &config.symbols {
        Some(s) => s,
        None => {
            return Ok(None);
        },
    };
    let name = string_from_chars(symbol_name);
    let mut k: usize = 0;
    while k < symbols.len()
        invariant
            k <= symbols@.len(),
            config.symbols == Some(*symbols),
            name@ == symbol_name@,
            custom_from(symbols@, config.sections@, symbol_name@, 0) == custom_from(
                symbols@,
                config.sections@,
                symbol_name@,
                k as int,
            ),
        decreases symbols.len() - k,
    {
        let (pattern, placement) = (&symbols[k].0, &symbols[k].1);
        match glob_match(pattern.as_str(), name.as_str()) {
            Err(e) => {
                return Err(ValidationProblem::InvalidGlobPattern { pattern: pattern.clone(), error: e });
            },
            Ok(true) => {
                return match find_section(&config.sections, &placement.section) {
                    Some(j) => Ok(
                        Some(
                            Assignment {
                                owner: pattern.clone(),
                                section_name: placement.section.clone(),
                                section: copy_section(&config.sections[j].1),
                                owner_type: OwnerType::Custom,
                            },
                        ),
                    ),
                    None => Err(
                        ValidationProblem::NonExistentSection {
                            symbol: name,
                            section: placement.section.clone(),
                        },
                    ),
                };
            },
            Ok(false) => {},
        }
        k = k + 1;
    }
    Ok(None)
}

/// A section name without its leading dots.
fn trim_leading_dots(v: &Vec<char>) -> (r: Vec<char>)
    ensures
        r@ == trim_dots(v@),
{
    let mut i: usize = 0;
    assert(v@.subrange(0, v@.len() as int) =~= v@);
    while i < v.len() && v[i] == '.'
        invariant
            i <= v@.len(),
            trim_dots(v@) == trim_dots(v@.subrange(i as int, v@.len() as int)),
        decreases v.len() - i,
    {
        assert(v@.subrange(i as int, v@.len() as int).drop_first() =~= v@.subrange(
            i + 1,
            v@.len() as int,
        ));
        i = i + 1;
    }
    sub_chars(v, i, v.len())
}

/// Checks that a symbol lies where it was assigned: in the assigned section (by
/// name), starting within its bounds and ending by its end.
pub fn validate_placement(symbol: &ValidationSymbol, assignments: &DepTree, config: &Config) -> (r:
    Result<(), ValidationProblem>)
    ensures
        match r {
            Ok(_) => placement_problem(symbol@, assignments.crates@, *config) is None,
            Err(p) => placement_problem(symbol@, assignments.crates@, *config) == Some(p@),
        },
{
    let name = chars_of(symbol.name.as_str());
    let assignment = match check_custom_symbol_placement(&name, config) {
        Err(p) => {
            return Err(p);
        },
        Ok(Some(a)) => a,
        Ok(None) => {
            let found = match &symbol.class {
                SymbolClass::RustMangled { crate_name, .. } => get_assignment_with_crate(
                    &name,
                    crate_name,
                    assignments,
                    config,
                ),
                SymbolClass::RustNonMangled { crate_name, .. } => get_assignment_with_crate(
                    &name,
                    crate_name,
                    assignments,
                    config,
                ),
                _ => {
                    return Ok(());
                },
            };
            match found {
                Err(p) => {
                    return Err(p);
                },
                Ok(Some(a)) => a,
                Ok(None) => {
                    return Ok(());
                },
            }
        },
    };
    let placed_in = chars_of(symbol.section.as_str());
    let actual = trim_leading_dots(&placed_in);
    let assigned = chars_of(assignment.section_name.as_str());
    if !chars_equal(&assigned, &actual) {
        let mut owner: Vec<char> = Vec::new();
        let kind = assignment.owner_type.to_string();
        push_str(&mut owner, kind.as_str());
        push_str(&mut owner, ": \"");
        push_str(&mut owner, assignment.owner.as_str());
        push_str(&mut owner, "\"");
        return Err(
            ValidationProblem::SymbolAssignment {
                name: symbol.name.clone(),
                owner: string_from_chars(&owner),
                correct_section: assignment.section_name,
                actual_section: string_from_chars(&actual),
            },
        );
    }
    let origin = match assignment.section.origin.checked_bytes() {
        Some(o) => o,
        None => {
            return Err(
                ValidationProblem::InvalidNumber { number: assignment.section.origin.to_string() },
            );
        },
    };
    let length = match assignment.section.length.checked_bytes() {
        Some(l) => l,
        None => {
            return Err(
                ValidationProblem::InvalidNumber { number: assignment.section.origin.to_string() },
            );
        },
    };
    let end = match origin.checked_add(length) {
        Some(e) => e,
        None => {
            return Err(
                ValidationProblem::SectionOverflow {
                    section: assignment.section_name,
                    start: origin,
                    length,
                },
            );
        },
    };
    if symbol.address < origin || symbol.address > end {
        return Err(
            ValidationProblem::SymbolPlacement {
                name: symbol.name.clone(),
                section_name: assignment.section_name,
                symbol_position: symbol.address,
                section_start: origin,
                section_end: end,
            },
        );
    }
    let symbol_end = match symbol.address.checked_add(symbol.size) {
        Some(e) => e,
        None => {
            return Err(
                ValidationProblem::SymbolOverflow {
                    symbol: symbol.name.clone(),
                    start: symbol.address,
                    length: symbol.size,
                },
            );
        },
    };
    if symbol_end > end {
        return Err(
            ValidationProblem::SymbolTooBig {
                name: symbol.name.clone(),
                section_name: assignment.section_name,
                symbol_start: symbol.address,
                symbol_end,
                section_end: end,
            },
        );
    }
    Ok(())
}

/// The placement problems of the first `n` symbols, in order.
pub open spec fn placement_problems(syms: Seq<Sym>, crates: Seq<(String, Crate)>, config: Config, n: int) -> Seq<
    Problem,
>
    decreases n,
{
    if n <= 0 {
        Seq::empty()
    } else {
        let prev = placement_problems(syms, crates, config, n - 1);
        match placement_problem(syms[n - 1], crates, config) {
            Some(p) => prev.push(p),
            None => prev,
        }
    }
}

/// All problems of a binary: those met while reading its symbols, then each
/// symbol's placement problem, in the order of the symbol table.
pub open spec fn validation_problems(
    units: Seq<DebugUnit>,
    symbols: Seq<BinarySymbol>,
    crates: Seq<(String, Crate)>,
    config: Config,
) -> Seq<Problem> {
    let st = loaded(units, symbols, Seq::empty());
    st.problems + placement_problems(st.symbols, crates, config, st.symbols.len() as int)
}

/// A debug-information entry as read from a binary: its depth below the unit's
/// root, its DWARF tag number, and its name and linkage name where readable.
#[derive(Clone, Debug)]
pub struct RawEntry {
    pub depth: isize,
    pub tag: u16,
    pub name: Option<String>,
    pub linkage_name: Option<String>,
}

/// A compilation unit as read from a binary: the DWARF language number of its
/// root where it gives one, and its other entries in depth-first order.
#[derive(Clone, Debug)]
pub struct RawUnit {
    pub language: Option<u16>,
    pub entries: Vec<RawEntry>,
}

/// A [`RawEntry`] with its texts taken as character sequences.
pub struct EntryRecord {
    pub depth: isize,
    pub tag: u16,
    pub name: Option<Seq<char>>,
    pub linkage_name: Option<Seq<char>>,
}

/// A [`RawUnit`] with its entries taken as records.
pub struct UnitRecord {
    pub language: Option<u16>,
    pub entries: Seq<EntryRecord>,
}

impl View for RawEntry {
    type V = EntryRecord;

    open spec fn view(&self) -> EntryRecord {
        EntryRecord {
            depth: self.depth,
            tag: self.tag,
            name: opt_text(self.name),
            linkage_name: opt_text(self.linkage_name),
        }
    }
}

impl View for RawUnit {
    type V = UnitRecord;

    open spec fn view(&self) -> UnitRecord {
        UnitRecord { language: self.language, entries: self.entries@.map_values(|e: RawEntry| e@) }
    }
}

/// A [`BinarySymbol`] with its texts taken as character sequences.
pub struct SymbolRecord {
    pub name: Option<Seq<char>>,
    pub address: u64,
    pub size: u64,
    pub section: Option<Seq<char>>,
}

impl View for BinarySymbol {
    type V = SymbolRecord;

    open spec fn view(&self) -> SymbolRecord {
        SymbolRecord {
            name: opt_text(self.name),
            address: self.address,
            size: self.size,
            section: opt_text(self.section),
        }
    }
}

/// What `object` reads as the symbol table of a binary given by its bytes, or
/// `None` where the bytes are not an object file it can parse.
pub uninterp spec fn object_symbols(bytes: Seq<u8>) -> Option<Seq<SymbolRecord>>;

/// `object::File::parse` followed by `Object::symbols`: each symbol with its name
/// and its section's name where they are readable, its address and its size. The
/// contract names the list read, and fails exactly where the bytes do not parse.
#[verifier::external_body]
fn read_symbols(bytes: &Vec<u8>) -> (r: Result<Vec<BinarySymbol>, object::Error>)
    ensures
        r is Ok <==> object_symbols(bytes@) is Some,
        r matches Ok(v) ==> object_symbols(bytes@) == Some(v@.map_values(|s: BinarySymbol| s@)),
{
    let obj = object::File::parse(bytes.as_slice())?;
    Ok(obj.symbols().map(|s| BinarySymbol {
        name: s.name().ok().map(|n| n.to_string()),
        address: s.address(),
        size: s.size(),
        section: s.section().index().and_then(|i| obj.section_by_index(i).and_then(|x| x.name()).ok()).map(|n| n.to_string()),
    }).collect())
}

/// The symbol table of a binary given by its bytes; fails where the bytes are not
/// an object file.
pub fn symbol_table(bytes: &Vec<u8>) -> (r: Result<Vec<BinarySymbol>, ValidationError>)
    ensures
        match object_symbols(bytes@) {
            Some(syms) => r matches Ok(v) && v@.map_values(|s: BinarySymbol| s@) == syms,
            None => r matches Err(ValidationError::ObjectError(_)),
        },
{
    match read_symbols(bytes) {
        Ok(v) => Ok(v),
        Err(e) => Err(ValidationError::ObjectError(e)),
    }
}

/// The DWARF tag number of a namespace.
pub const DW_TAG_NAMESPACE: u16 = 0x39;

/// The DWARF tag number of a subprogram.
pub const DW_TAG_SUBPROGRAM: u16 = 0x2e;

/// The DWARF tag number of a variable.
pub const DW_TAG_VARIABLE: u16 = 0x34;

/// The DWARF language number of Rust.
pub const DW_LANG_RUST: u16 = 0x1c;

/// The entry kind that a DWARF tag number stands for.
pub open spec fn tag_kind(tag: u16) -> EntryTag {
    if tag == DW_TAG_NAMESPACE {
        EntryTag::Namespace
    } else if tag == DW_TAG_SUBPROGRAM {
        EntryTag::Subprogram
    } else if tag == DW_TAG_VARIABLE {
        EntryTag::Variable
    } else {
        EntryTag::Other
    }
}

/// `d` is the entry read as `e`.
pub open spec fn entry_from(d: DebugEntry, e: EntryRecord) -> bool {
    &&& d.depth == e.depth
    &&& d.tag == tag_kind(e.tag)
    &&& opt_text(d.name) == e.name
    &&& opt_text(d.linkage_name) == e.linkage_name
}

/// `u` is the unit read as `r`: Rust exactly where its root gives Rust as the
/// language, with an entry for each entry read.
pub open spec fn unit_from(u: DebugUnit, r: UnitRecord) -> bool {
    &&& u.is_rust == (r.language == Some(DW_LANG_RUST))
    &&& u.entries@.len() == r.entries.len()
    &&& forall|i: int| 0 <= i < r.entries.len() ==> entry_from(#[trigger] u.entries@[i], r.entries[i])
}

/// `us` are the units read as `rs`, one for one.
pub open spec fn units_from(us: Seq<DebugUnit>, rs: Seq<UnitRecord>) -> bool {
    &&& us.len() == rs.len()
    &&& forall|i: int| 0 <= i < rs.len() ==> unit_from(#[trigger] us[i], rs[i])
}

fn clone_text(o: &Option<String>) -> (r: Option<String>)
    ensures
        opt_text(r) == opt_text(*o),
{
    match o {
        Some(t) => Some(t.clone()),
        None => None,
    }
}

/// The entry kind that a DWARF tag number stands for.
fn entry_tag(tag: u16) -> (r: EntryTag)
    ensures
        r == tag_kind(tag),
{
    if tag == DW_TAG_NAMESPACE {
        EntryTag::Namespace
    } else if tag == DW_TAG_SUBPROGRAM {
        EntryTag::Subprogram
    } else if tag == DW_TAG_VARIABLE {
        EntryTag::Variable
    } else {
        EntryTag::Other
    }
}

/// The unit that classification reads, from a unit as read from the binary.
fn debug_unit(raw: &RawUnit) -> (u: DebugUnit)
    ensures
        unit_from(u, raw@),
{
    let mut entries: Vec<DebugEntry> = Vec::new();
    let mut i: usize = 0;
    while i < raw.entries.len()
        invariant
            i <= raw.entries@.len(),
            entries@.len() == i,
            forall|j: int| 0 <= j < i ==> entry_from(#[trigger] entries@[j], raw.entries@[j]@),
        decreases raw.entries.len() - i,
    {
        let e = &raw.entries[i];
        entries.push(
            DebugEntry {
                depth: e.depth,
                tag: entry_tag(e.tag),
                name: clone_text(&e.name),
                linkage_name: clone_text(&e.linkage_name),
            },
        );
        i = i + 1;
    }
    let is_rust = match raw.language {
        Some(l) => l == DW_LANG_RUST,
        None => false,
    };
    DebugUnit { is_rust, entries }
}

/// The units that classification reads, from the compilation units as read from
/// a binary: a unit is Rust exactly where its root gives Rust as the language,
/// and each entry's tag number becomes the kind it stands for.
pub fn debug_units(raw: &Vec<RawUnit>) -> (r: Vec<DebugUnit>)
    ensures
        units_from(r@, raw@.map_values(|u: RawUnit| u@)),
{
    let ghost urs = raw@.map_values(|u: RawUnit| u@);
    let mut units: Vec<DebugUnit> = Vec::new();
    let mut i: usize = 0;
    while i < raw.len()
        invariant
            i <= raw@.len(),
            urs == raw@.map_values(|u: RawUnit| u@),
            units@.len() == i,
            forall|j: int| 0 <= j < i ==> unit_from(#[trigger] units@[j], urs[j]),
        decreases raw.len() - i,
    {
        let u = debug_unit(&raw[i]);
        units.push(u);
        i = i + 1;
    }
    units
}

/// The DWARF data of a binary with the compilation units not yet read: gimli's
/// `Dwarf` and its unit-header iterator over owned section data. Verus takes no
/// declaration of gimli's readers, whose parameters are bounded by gimli's traits.
#[verifier::external_body]
pub struct DwarfUnits {
    dwarf: gimli::Dwarf<gimli::EndianRcSlice<gimli::RunTimeEndian>>,
    headers: gimli::DebugInfoUnitHeadersIter<gimli::EndianRcSlice<gimli::RunTimeEndian>>,
}

/// A compilation unit of a binary's DWARF data, parsed but with its entries not
/// yet read.
#[verifier::external_body]
pub struct DwarfUnit {
    unit: gimli::Unit<gimli::EndianRcSlice<gimli::RunTimeEndian>>,
}

/// What gimli reads from the bytes of a binary as its compilation units: for each
/// unit with a root entry, the root's language and the other entries in
/// depth-first order; `None` where the bytes are no object file or a unit header,
/// a unit or an entry cannot be read.
pub uninterp spec fn dwarf_units(bytes: Seq<u8>) -> Option<Seq<UnitRecord>>;

/// What reading the units that `h` has yet to give comes to, as [`dwarf_units`]
/// says of a whole binary.
pub uninterp spec fn units_ahead(h: DwarfUnits) -> Option<Seq<UnitRecord>>;

/// How many more unit headers `h` gives before it ends or fails.
pub uninterp spec fn headers_left(h: DwarfUnits) -> nat;

/// What reading unit `u` with the string sections of `h` comes to: `None` where an
/// entry cannot be read, `Some(None)` where the unit has no entries, and otherwise
/// the root's language and the other entries in depth-first order.
pub uninterp spec fn unit_record(h: DwarfUnits, u: DwarfUnit) -> Option<Option<UnitRecord>>;

/// The units read from a unit's outcome followed by the rest's.
pub open spec fn then_units(first: Option<Option<UnitRecord>>, rest: Option<Seq<UnitRecord>>) -> Option<
    Seq<UnitRecord>,
> {
    match first {
        None => None,
        Some(None) => rest,
        Some(Some(u)) => match rest {
            Some(r) => Some(seq![u] + r),
            None => None,
        },
    }
}

/// `object::File::parse`, then `gimli::Dwarf::load` over the object's sections
/// (an absent or unreadable section is empty), then `Dwarf::units`. The contract
/// ties the units ahead to [`dwarf_units`] of the bytes.
#[verifier::external_body]
fn load_dwarf(bytes: &Vec<u8>) -> (r: Result<DwarfUnits, ValidationError>)
    ensures
        r matches Ok(h) ==> dwarf_units(bytes@) == units_ahead(h),
        r is Err ==> dwarf_units(bytes@) is None,
        r matches Err(e) ==> e is ObjectError || e is GimliError,
{
    let obj = object::File::parse(bytes.as_slice()).map_err(ValidationError::ObjectError)?;
    let endian = if obj.is_little_endian() { gimli::RunTimeEndian::Little } else { gimli::RunTimeEndian::Big };
    let section = |id: gimli::SectionId| obj.section_by_name(id.name()).and_then(|s| s.data().ok()).unwrap_or(&[]);
    let dwarf = gimli::Dwarf::load(|id| Ok(gimli::EndianRcSlice::new(std::rc::Rc::from(section(id)), endian)))
        .map_err(ValidationError::GimliError)?;
    let headers = dwarf.units();
    Ok(DwarfUnits { dwarf, headers })
}

/// `DebugInfoUnitHeadersIter::next`, then `Dwarf::unit` on the header it gives.
#[verifier::external_body]
fn next_unit(h: &mut DwarfUnits) -> (r: Result<Option<DwarfUnit>, gimli::Error>)
    ensures
        r is Err ==> units_ahead(*old(h)) is None,
        r matches Ok(None) ==> units_ahead(*old(h)) == Some(Seq::<UnitRecord>::empty()) && units_ahead(
            *final(h),
        ) == Some(Seq::<UnitRecord>::empty()),
        r matches Ok(Some(u)) ==> units_ahead(*old(h)) == then_units(
            unit_record(*final(h), u),
            units_ahead(*final(h)),
        ) && headers_left(*final(h)) < headers_left(*old(h)),
{
    match h.headers.next()? {
        Some(header) => Ok(Some(DwarfUnit { unit: h.dwarf.unit(header)? })),
        None => Ok(None),
    }
}

/// `EntriesCursor::next_dfs` for a unit's root, and the root's `DW_AT_language`
/// where it is a language: `None` where the unit has no entries.
#[verifier::external_body]
fn unit_language(h: &DwarfUnits, u: &DwarfUnit) -> (r: Result<Option<Option<u16>>, gimli::Error>)
    ensures
        r is Err ==> unit_record(*h, *u) is None,
        r matches Ok(None) ==> unit_record(*h, *u) == Some(None::<UnitRecord>),
        r matches Ok(Some(l)) ==> unit_record(*h, *u) is None || (unit_record(*h, *u) matches Some(
            Some(rec),
        ) && rec.language == l),
{
    let mut cursor = u.unit.entries();
    Ok(cursor.next_dfs()?.map(|root| match root.attr_value(gimli::DW_AT_language) {
        Some(gimli::AttributeValue::Language(l)) => Some(l.0),
        _ => None,
    }))
}

/// `EntriesCursor::next_dfs` over a unit's entries after its root: each with its
/// depth, its tag number, and its `DW_AT_name` and `DW_AT_linkage_name` read as
/// strings (`Dwarf::attr_string`) where they are readable.
#[verifier::external_body]
fn unit_entries(h: &DwarfUnits, u: &DwarfUnit) -> (r: Result<Vec<RawEntry>, gimli::Error>)
    ensures
        r is Err ==> unit_record(*h, *u) is None,
        r matches Ok(v) ==> unit_record(*h, *u) matches Some(x) && (x matches Some(rec) ==> rec.entries
            == v@.map_values(|e: RawEntry| e@)),
{
    let mut cursor = u.unit.entries();
    cursor.next_dfs()?;
    let mut v = Vec::new();
    while let Some(e) = cursor.next_dfs()? {
        let text = |at| e.attr_value(at).and_then(|a| h.dwarf.attr_string(&u.unit, a).ok()?.to_string().ok().map(|s| s.to_string()));
        v.push(RawEntry { depth: e.depth(), tag: e.tag().0, name: text(gimli::DW_AT_name), linkage_name: text(gimli::DW_AT_linkage_name) });
    }
    Ok(v)
}

/// The compilation units of a binary given by its bytes, as read: for each unit
/// with entries, its root's language and its other entries.
pub fn read_dwarf(bytes: &Vec<u8>) -> (r: Result<Vec<RawUnit>, ValidationError>)
    ensures
        r is Ok <==> dwarf_units(bytes@) is Some,
        r matches Ok(v) ==> dwarf_units(bytes@) == Some(v@.map_values(|u: RawUnit| u@)),
        r matches Err(e) ==> e is ObjectError || e is GimliError,
{
    let mut h = match load_dwarf(bytes) {
        Ok(h) => h,
        Err(e) => {
            return Err(e);
        },
    };
    let mut units: Vec<RawUnit> = Vec::new();
    let mut done = false;
    while !done
        invariant
            dwarf_units(bytes@) == (match units_ahead(h) {
                Some(rest) => Some(units@.map_values(|u: RawUnit| u@) + rest),
                None => None,
            }),
            done ==> units_ahead(h) == Some(Seq::<UnitRecord>::empty()),
        decreases (if done {
            0
        } else {
            headers_left(h) + 1
        }),
    {
        let ghost before = h;
        match next_unit(&mut h) {
            Err(e) => {
                return Err(ValidationError::GimliError(e));
            },
            Ok(None) => {
                done = true;
            },
            Ok(Some(u)) => {
                match unit_language(&h, &u) {
                    Err(e) => {
                        return Err(ValidationError::GimliError(e));
                    },
                    Ok(None) => {},
                    Ok(Some(language)) => {
                        match unit_entries(&h, &u) {
                            Err(e) => {
                                return Err(ValidationError::GimliError(e));
                            },
                            Ok(entries) => {
                                let ghost old_units = units@.map_values(|x: RawUnit| x@);
                                let raw = RawUnit { language, entries };
                                units.push(raw);
                                proof {
                                    assert(unit_record(h, u) == Some(Some(raw@)));
                                    assert(units@.map_values(|x: RawUnit| x@) =~= old_units.push(raw@));
                                    if let Some(rest) = units_ahead(h) {
                                        assert(old_units + (seq![raw@] + rest) =~= units@.map_values(
                                            |x: RawUnit| x@,
                                        ) + rest);
                                    }
                                }
                            },
                        }
                    },
                }
            },
        }
    }
    proof {
        assert(units@.map_values(|u: RawUnit| u@) + Seq::<UnitRecord>::empty() =~= units@.map_values(
            |u: RawUnit| u@,
        ));
    }
    Ok(units)
}

/// The compilation units and the symbol table of a binary given by its bytes, as
/// the records that classification and placement checks take. The symbol table is
/// read first: bytes that are no object file fail there.
pub fn binary_contents(bytes: &Vec<u8>) -> (r: Result<(Vec<DebugUnit>, Vec<BinarySymbol>), ValidationError>)
    ensures
        match (object_symbols(bytes@), dwarf_units(bytes@)) {
            (Some(ss), Some(us)) => r matches Ok((u, s)) && units_from(u@, us) && s@.map_values(
                |b: BinarySymbol| b@,
            ) == ss,
            (None, _) => r matches Err(ValidationError::ObjectError(_)),
            (Some(_), None) => r matches Err(e) && (e is ObjectError || e is GimliError),
        },
{
    let symbols = match symbol_table(bytes) {
        Ok(s) => s,
        Err(e) => {
            return Err(e);
        },
    };
    let raw = match read_dwarf(bytes) {
        Ok(r) => r,
        Err(e) => {
            return Err(e);
        },
    };
    Ok((debug_units(&raw), symbols))
}

/// Checks a binary, given by its debug information and its symbol table, against
/// the crate assignments and the configuration, and returns every problem found.
pub fn validate(
    units: &Vec<DebugUnit>,
    symbols: &Vec<BinarySymbol>,
    assignments: &DepTree,
    config: &Config,
) -> (r: Vec<ValidationProblem>)
    ensures
        problems_view(r@) == validation_problems(units@, symbols@, assignments.crates@, *config),
{
    let mut problems: Vec<ValidationProblem> = Vec::new();
    assert(problems_view(problems@) =~= Seq::<Problem>::empty());
    let binary = load_binary(&mut problems, units, symbols);
    let ghost base = problems_view(problems@);
    let ghost syms = symbols_view(binary@);
    assert(base + placement_problems(syms, assignments.crates@, *config, 0) =~= base);
    let mut i: usize = 0;
    while i < binary.len()
        invariant
            i <= binary@.len(),
            syms == symbols_view(binary@),
            problems_view(problems@) == base + placement_problems(
                syms,
                assignments.crates@,
                *config,
                i as int,
            ),
        decreases binary.len() - i,
    {
        match validate_placement(&binary[i], assignments, config) {
            Err(p) => {
                add_problem(&mut problems, p);
                assert(base + placement_problems(syms, assignments.crates@, *config, i + 1) =~= (
                base + placement_problems(syms, assignments.crates@, *config, i as int)).push(p@));
            },
            Ok(_) => {},
        }
        i = i + 1;
    }
    problems
}

/// Patterns for the symbols whose problems are set aside, in the order given.
#[derive(Clone, Debug)]
pub struct IgnoreList {
    patterns: Vec<String>,
}

impl View for IgnoreList {
    type V = Seq<Seq<char>>;

    closed spec fn view(&self) -> Seq<Seq<char>> {
        self.patterns@.map_values(|p: String| p@)
    }
}

impl IgnoreList {
    /// A list of the given patterns.
    pub fn new(patterns: &Vec<String>) -> (r: IgnoreList)
        ensures
            r@ == patterns@.map_values(|p: String| p@),
    {
        IgnoreList { patterns: patterns.clone() }
    }

    /// The patterns, in order.
    pub fn patterns(&self) -> (r: &Vec<String>)
        ensures
            r@.map_values(|p: String| p@) == self@,
    {
        &self.patterns
    }
}

impl Default for IgnoreList {
    fn default() -> (r: IgnoreList)
        ensures
            r@ == Seq::<Seq<char>>::empty(),
    {
        let r = IgnoreList { patterns: Vec::new() };
        assert(r@ =~= Seq::<Seq<char>>::empty());
        r
    }
}

/// The symbol a problem is about, where it is about one.
pub open spec fn problem_symbol(p: Problem) -> Option<Seq<char>> {
    match p {
        Problem::SymbolTooBig { name, .. } => Some(name),
        Problem::SymbolPlacement { name, .. } => Some(name),
        Problem::SymbolAssignment { name, .. } => Some(name),
        Problem::UnknownManglingScheme { name, .. } => Some(name),
        Problem::NoCrateName { name } => Some(name),
        Problem::ClassificationFailure { name } => Some(name),
        Problem::NonExistentCrate { name, .. } => Some(name),
        Problem::NonExistentSection { symbol, .. } => Some(symbol),
        Problem::SymbolOverflow { symbol, .. } => Some(symbol),
        Problem::NonExistentSectionCrate { .. } => None,
        Problem::InvalidGlobPattern { .. } => None,
        Problem::InvalidNumber { .. } => None,
        Problem::SectionOverflow { .. } => None,
    }
}

impl ValidationProblem {
    /// The symbol this problem is about, where it is about one.
    pub fn symbol_name(&self) -> (r: Option<&String>)
        ensures
            match problem_symbol(self@) {
                Some(n) => r matches Some(x) && x@ == n,
                None => r is None,
            },
    {
        match self {
            ValidationProblem::SymbolTooBig { name, .. } => Some(name),
            ValidationProblem::SymbolPlacement { name, .. } => Some(name),
            ValidationProblem::SymbolAssignment { name, .. } => Some(name),
            ValidationProblem::UnknownManglingScheme { name, .. } => Some(name),
            ValidationProblem::NoCrateName { name } => Some(name),
            ValidationProblem::ClassificationFailure { name } => Some(name),
            ValidationProblem::NonExistentCrate { name, .. } => Some(name),
            ValidationProblem::NonExistentSection { symbol, .. } => Some(symbol),
            ValidationProblem::SymbolOverflow { symbol, .. } => Some(symbol),
            ValidationProblem::NonExistentSectionCrate { .. } => None,
            ValidationProblem::InvalidGlobPattern { .. } => None,
            ValidationProblem::InvalidNumber { .. } => None,
            ValidationProblem::SectionOverflow { .. } => None,
        }
    }
}

/// A symbol pattern that matches a symbol decides where the symbol belongs, over
/// the crate the symbol comes from.
pub proof fn lemma_patterns_override_crates(sym: Sym, crates: Seq<(String, Crate)>, config: Config)
    requires
        custom_assignment(config, sym.name) is Err || custom_assignment(config, sym.name) matches Ok(
            Some(_),
        ),
    ensures
        assignment_of(sym, crates, config) == custom_assignment(config, sym.name),
{
}

/// A symbol that validation accepts, where it was assigned a section, lies in that
/// section: in the section of that name, starting at or after its origin and
/// ending by its end.
pub proof fn lemma_accepted_symbol_lies_in_section(
    sym: Sym,
    crates: Seq<(String, Crate)>,
    config: Config,
    a: Assign,
)
    requires
        assignment_of(sym, crates, config) == Ok::<Option<Assign>, Problem>(Some(a)),
        placement_problem(sym, crates, config) is None,
    ensures
        trim_dots(sym.section) == a.section_name,
        a.section.origin.spec_bytes() <= sym.address,
        sym.address + sym.size <= a.section.origin.spec_bytes() + a.section.length.spec_bytes(),
{
}

proof fn lemma_crate_for_symbol_from(crates: Seq<(String, Crate)>, name: Seq<char>, k: int, i: int)
    requires
        0 <= k <= i < crates.len(),
        underscored(crates[i].1.name@) == name,
        forall|j: int| k <= j < i ==> underscored((#[trigger] crates[j]).1.name@) != name,
    ensures
        crate_for_symbol_from(crates, name, k) == Some(i),
    decreases i - k,
{
    if k < i {
        lemma_crate_for_symbol_from(crates, name, k + 1, i);
    }
}

/// A symbol that a crate owns, whether its name is mangled or not, and that no
/// symbol pattern places, is accepted only if it lies in the section its crate is
/// assigned to (where that section exists); lying in another section, it is
/// reported as placed in the wrong section, naming both.
pub proof fn lemma_crate_symbol_checked_against_its_crate(
    sym: Sym,
    crates: Seq<(String, Crate)>,
    config: Config,
    i: int,
    crate_name: Seq<char>,
)
    requires
        custom_assignment(config, sym.name) == Ok::<Option<Assign>, Problem>(None),
        (sym.class matches Class::RustMangled { crate_name: c, .. } && c == crate_name) || (
        sym.class matches Class::RustNonMangled { crate_name: c, .. } && c == crate_name),
        0 <= i < crates.len(),
        underscored(crates[i].1.name@) == crate_name,
        forall|j: int| 0 <= j < i ==> underscored((#[trigger] crates[j]).1.name@) != crate_name,
        crates[i].1.assignment is Some,
        has_section(config.sections@, crates[i].1.assignment->0.name@),
    ensures
        placement_problem(sym, crates, config) is None ==> trim_dots(sym.section)
            == crates[i].1.assignment->0.name@,
        trim_dots(sym.section) != crates[i].1.assignment->0.name@ ==> (placement_problem(
            sym,
            crates,
            config,
        ) matches Some(Problem::SymbolAssignment { name, correct_section, actual_section, .. })
            && name == sym.name && correct_section == crates[i].1.assignment->0.name@
            && actual_section == trim_dots(sym.section)),
{
    lemma_crate_for_symbol_from(crates, crate_name, 0, i);
    let a = crates[i].1.assignment->0;
    lemma_section_index_from(config.sections@, a.name@, 0);
}

proof fn lemma_first_section(secs: Seq<(String, Section)>, name: Seq<char>, k: int, j: int)
    requires
        0 <= k <= j < secs.len(),
        secs[j].0@ == name,
        forall|m: int| k <= m < j ==> (#[trigger] secs[m]).0@ != name,
    ensures
        section_index_from(secs, name, k) == Some(j),
    decreases j - k,
{
    if k < j {
        lemma_first_section(secs, name, k + 1, j);
    }
}

/// A symbol that a crate owns, whether its name is mangled or not, and that no
/// symbol pattern places, is accepted where it lies in the section its crate is
/// assigned to: in the section of that name, starting at or after its origin and
/// ending by its end.
pub proof fn lemma_crate_symbol_in_its_section_accepted(
    sym: Sym,
    crates: Seq<(String, Crate)>,
    config: Config,
    i: int,
    crate_name: Seq<char>,
    j: int,
)
    requires
        custom_assignment(config, sym.name) == Ok::<Option<Assign>, Problem>(None),
        (sym.class matches Class::RustMangled { crate_name: c, .. } && c == crate_name) || (
        sym.class matches Class::RustNonMangled { crate_name: c, .. } && c == crate_name),
        0 <= i < crates.len(),
        underscored(crates[i].1.name@) == crate_name,
        forall|m: int| 0 <= m < i ==> underscored((#[trigger] crates[m]).1.name@) != crate_name,
        crates[i].1.assignment is Some,
        0 <= j < config.sections@.len(),
        config.sections@[j].0@ == crates[i].1.assignment->0.name@,
        forall|m: int| 0 <= m < j ==> (#[trigger] config.sections@[m]).0@ != crates[i].1.assignment->0.name@,
        trim_dots(sym.section) == crates[i].1.assignment->0.name@,
        config.sections@[j].1.origin.spec_bytes() + config.sections@[j].1.length.spec_bytes() <= u64::MAX,
        config.sections@[j].1.origin.spec_bytes() <= sym.address,
        sym.address + sym.size <= config.sections@[j].1.origin.spec_bytes()
            + config.sections@[j].1.length.spec_bytes(),
    ensures
        placement_problem(sym, crates, config) is None,
{
    lemma_crate_for_symbol_from(crates, crate_name, 0, i);
    lemma_first_section(config.sections@, crates[i].1.assignment->0.name@, 0, j);
}

/// How a symbol class is written after the symbol's name.
pub open spec fn class_text(c: Class) -> Seq<char> {
    match c {
        Class::RustMangled { demangled, crate_name } => ": RustMangled{\""@ + demangled + "\", crate: \""@
            + crate_name + "\"}"@,
        Class::RustNonMangled { name, crate_name } => ": RustNonMangled{\""@ + name + "\", crate: \""@
            + crate_name + "\"}"@,
        Class::Defmt => ": Defmt"@,
        Class::Main => ": Main"@,
        Class::OtherLang => ": OtherLanguage"@,
        Class::RustCrateLess => ": RustCrateLess"@,
        Class::CortexMShenanigans => ": CortexMSpecial"@,
        Class::Ignored => ": Ignored"@,
    }
}

/// How a symbol to be checked is written: its name and class, then its address
/// and size in hexadecimal and its section.
pub open spec fn shown_symbol(s: Sym) -> Seq<char> {
    s.name + class_text(s.class) + " at 0x"@ + lower_hex2_text(s.address as nat) + " size 0x"@
        + lower_hex2_text(s.size as nat) + " in "@ + s.section
}

impl SymbolClass {
    /// Writes how the class is shown after a symbol's name.
    fn push_text(&self, out: &mut Vec<char>)
        ensures
            final(out)@ == old(out)@ + class_text(self@),
    {
        match self {
            SymbolClass::RustMangled { demangled, crate_name } => {
                push_str(out, ": RustMangled{\"");
                push_str(out, demangled.as_str());
                push_str(out, "\", crate: \"");
                push_str(out, crate_name.as_str());
                push_str(out, "\"}");
            },
            SymbolClass::RustNonMangled { name, crate_name } => {
                push_str(out, ": RustNonMangled{\"");
                push_str(out, name.as_str());
                push_str(out, "\", crate: \"");
                push_str(out, crate_name.as_str());
                push_str(out, "\"}");
            },
            SymbolClass::Defmt => push_str(out, ": Defmt"),
            SymbolClass::Main => push_str(out, ": Main"),
            SymbolClass::OtherLang => push_str(out, ": OtherLanguage"),
            SymbolClass::RustCrateLess => push_str(out, ": RustCrateLess"),
            SymbolClass::CortexMShenanigans => push_str(out, ": CortexMSpecial"),
            SymbolClass::Ignored => push_str(out, ": Ignored"),
        }
        assert(out@ =~= old(out)@ + class_text(self@));
    }
}

impl ValidationSymbol {
    /// The symbol as it is shown: its name and class, then its address and size in
    /// hexadecimal and its section.
    pub fn to_string(&self) -> (r: String)
        ensures
            r@ == shown_symbol(self@),
    {
        let mut out: Vec<char> = Vec::new();
        push_str(&mut out, self.name.as_str());
        self.class.push_text(&mut out);
        push_str(&mut out, " at 0x");
        push_lower_hex2(&mut out, self.address);
        push_str(&mut out, " size 0x");
        push_lower_hex2(&mut out, self.size);
        push_str(&mut out, " in ");
        push_str(&mut out, self.section.as_str());
        assert(out@ =~= shown_symbol(self@));
        string_from_chars(&out)
    }
}

} // verus!
