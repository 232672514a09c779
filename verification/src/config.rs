//! The memory configuration (`Memory.toml`): byte units, sections, crate and symbol
//! placements, and the checks that a configuration must pass.
use vstd::prelude::*;
use vstd::string::*;

use toml_edit::{DocumentMut, InlineTable, Item, Table, Value};

use crate::file_error::FileError;
use crate::text::{
    chars_of, dec_text, digit_value, hex_text, lemma_dec_text_parses, lemma_hex_text_parses, parse_u64_range, parse_u64_text,
    push_decimal, push_hex, starts_with, string_from_chars,
};

verus! {

/// An amount of bytes as written in the configuration: a hexadecimal number
/// (`0x..`), a plain number of bytes, or kibi-, mebi- or gibibytes.
#[derive(Debug, Clone, Copy, PartialEq, Eq, Structural)]
pub enum ByteUnit {
    H(u64),
    B(u64),
    K(u64),
    M(u64),
    G(u64),
}

/// The input that could not be read as a [`ByteUnit`].
#[derive(Debug, Clone)]
pub struct UnitParseError(String);

impl View for UnitParseError {
    type V = Seq<char>;

    closed spec fn view(&self) -> Seq<char> {
        self.0@
    }
}

impl UnitParseError {
    /// The text that failed to parse.
    pub fn input(&self) -> (r: &String)
        ensures
            r@ == self@,
    {
        &self.0
    }
}

impl ByteUnit {
    /// The number of bytes this unit stands for.
    pub open spec fn spec_bytes(self) -> int {
        match self {
            ByteUnit::H(v) => v as int,
            ByteUnit::B(v) => v as int,
            ByteUnit::K(v) => v * 1024,
            ByteUnit::M(v) => v * 1024 * 1024,
            ByteUnit::G(v) => v * 1024 * 1024 * 1024,
        }
    }

    /// The number of bytes this unit stands for.
    pub fn as_bytes(&self) -> (r: u64)
        requires
            self.spec_bytes() <= u64::MAX,
        ensures
            r == self.spec_bytes(),
    {
        match self {
            ByteUnit::H(value) => *value,
            ByteUnit::B(value) => *value,
            ByteUnit::K(value) => *value * 1024,
            ByteUnit::M(value) => *value * 1024 * 1024,
            ByteUnit::G(value) => *value * 1024 * 1024 * 1024,
        }
    }

    /// The number of bytes, or `None` where it does not fit in a `u64`.
    pub fn checked_bytes(&self) -> (r: Option<u64>)
        ensures
            match r {
                Some(b) => b == self.spec_bytes(),
                None => self.spec_bytes() > u64::MAX,
            },
    {
        proof {
            let v = match self {
                ByteUnit::H(v) => v,
                ByteUnit::B(v) => v,
                ByteUnit::K(v) => v,
                ByteUnit::M(v) => v,
                ByteUnit::G(v) => v,
            };
            assert(v * (1024 * 1024) == v * 1024 * 1024) by (nonlinear_arith);
            assert(v * (1024 * 1024 * 1024) == v * 1024 * 1024 * 1024) by (nonlinear_arith);
        }
        match self {
            ByteUnit::H(value) => Some(*value),
            ByteUnit::B(value) => Some(*value),
            ByteUnit::K(value) => value.checked_mul(1024),
            ByteUnit::M(value) => value.checked_mul(1024 * 1024),
            ByteUnit::G(value) => value.checked_mul(1024 * 1024 * 1024),
        }
    }

    /// Reads a byte unit: `0x` or `0X` followed by a hexadecimal number, or a decimal
    /// number optionally followed by `K`, `M` or `G`.
    pub fn from_str(s: &str) -> (r: Result<ByteUnit, UnitParseError>)
        ensures
            match parse_byte_unit(s@) {
                Some(u) => r == Ok::<ByteUnit, UnitParseError>(u),
                None => r matches Err(e) && e@ == s@,
            },
    {
        let v = chars_of(s);
        let n = v.len();
        let parsed = if n >= 2 && v[0] == '0' && (v[1] == 'x' || v[1] == 'X') {
            proof {
                if v[1] == 'x' {
                    assert(v@.subrange(0, 2) =~= seq!['0', 'x']);
                } else {
                    assert(v@.subrange(0, 2) =~= seq!['0', 'X']);
                }
            }
            match parse_u64_range(&v, 2, n, 16) {
                Some(x) => Some(ByteUnit::H(x)),
                None => None,
            }
        } else {
            proof {
                if n >= 2 {
                    assert(v@.subrange(0, 2)[1] == v@[1]);
                    assert(v@.subrange(0, 2)[0] == v@[0]);
                }
            }
            let last = if n > 0 {
                v[n - 1]
            } else {
                ' '
            };
            if n > 0 && (last == 'K' || last == 'M' || last == 'G') {
                assert(v@.subrange(0, n - 1) =~= v@.drop_last());
                match parse_u64_range(&v, 0, n - 1, 10) {
                    Some(x) => Some(
                        if last == 'K' {
                            ByteUnit::K(x)
                        } else if last == 'M' {
                            ByteUnit::M(x)
                        } else {
                            ByteUnit::G(x)
                        },
                    ),
                    None => None,
                }
            } else {
                assert(v@.subrange(0, n as int) =~= v@);
                match parse_u64_range(&v, 0, n, 10) {
                    Some(x) => Some(ByteUnit::B(x)),
                    None => None,
                }
            }
        };
        match parsed {
            Some(u) => Ok(u),
            None => Err(UnitParseError(s.to_owned())),
        }
    }

    /// The unit as the configuration writes it: hexadecimal after `0x`, the others
    /// in decimal with their suffix.
    pub fn to_string(&self) -> (r: String)
        ensures
            r@ == unit_text(*self),
    {
        let mut out: Vec<char> = Vec::new();
        match self {
            ByteUnit::H(value) => {
                out.push('0');
                out.push('x');
                push_hex(&mut out, *value);
            },
            ByteUnit::B(value) => {
                push_decimal(&mut out, *value);
            },
            ByteUnit::K(value) => {
                push_decimal(&mut out, *value);
                out.push('K');
            },
            ByteUnit::M(value) => {
                push_decimal(&mut out, *value);
                out.push('M');
            },
            ByteUnit::G(value) => {
                push_decimal(&mut out, *value);
                out.push('G');
            },
        }
        assert(out@ =~= unit_text(*self));
        string_from_chars(&out)
    }
}

impl core::str::FromStr for ByteUnit {
    type Err = UnitParseError;

    fn from_str(s: &str) -> (r: Result<Self, Self::Err>)
        ensures
            match parse_byte_unit(s@) {
                Some(u) => r == Ok::<ByteUnit, UnitParseError>(u),
                None => r matches Err(e) && e@ == s@,
            },
    {
        ByteUnit::from_str(s)
    }
}

/// What a byte unit reads as, if anything.
pub open spec fn parse_byte_unit(s: Seq<char>) -> Option<ByteUnit> {
    if starts_with(s, seq!['0', 'x']) || starts_with(s, seq!['0', 'X']) {
        match parse_u64_text(s.subrange(2, s.len() as int), 16) {
            Some(v) => Some(ByteUnit::H(v)),
            None => None,
        }
    } else if s.len() > 0 && s.last() == 'K' {
        match parse_u64_text(s.drop_last(), 10) {
            Some(v) => Some(ByteUnit::K(v)),
            None => None,
        }
    } else if s.len() > 0 && s.last() == 'M' {
        match parse_u64_text(s.drop_last(), 10) {
            Some(v) => Some(ByteUnit::M(v)),
            None => None,
        }
    } else if s.len() > 0 && s.last() == 'G' {
        match parse_u64_text(s.drop_last(), 10) {
            Some(v) => Some(ByteUnit::G(v)),
            None => None,
        }
    } else {
        match parse_u64_text(s, 10) {
            Some(v) => Some(ByteUnit::B(v)),
            None => None,
        }
    }
}

/// How a byte unit is written out.
pub open spec fn unit_text(u: ByteUnit) -> Seq<char> {
    match u {
        ByteUnit::H(v) => seq!['0', 'x'] + hex_text(v as nat),
        ByteUnit::B(v) => dec_text(v as nat),
        ByteUnit::K(v) => dec_text(v as nat).push('K'),
        ByteUnit::M(v) => dec_text(v as nat).push('M'),
        ByteUnit::G(v) => dec_text(v as nat).push('G'),
    }
}

/// A byte unit reads back as itself from the text it is written as.
pub proof fn lemma_unit_text_round_trip(u: ByteUnit)
    ensures
        parse_byte_unit(unit_text(u)) == Some(u),
{
    let v = match u {
        ByteUnit::H(v) => v,
        ByteUnit::B(v) => v,
        ByteUnit::K(v) => v,
        ByteUnit::M(v) => v,
        ByteUnit::G(v) => v,
    };
    let t = unit_text(u);
    if u is H {
        lemma_hex_text_parses(v as nat);
        assert(t.subrange(0, 2) =~= seq!['0', 'x']);
        assert(t.subrange(2, t.len() as int) =~= hex_text(v as nat));
    } else {
        lemma_dec_text_parses(v as nat);
        let d = dec_text(v as nat);
        assert(digit_value(d[0], 10) is Some);
        if d.len() >= 2 {
            assert(digit_value(d[1], 10) is Some);
            assert(t.subrange(0, 2)[1] == d[1]);
        } else {
            if !(u is B) {
                assert(t.subrange(0, 2)[1] == t[1]);
            }
        }
        assert(digit_value(d.last(), 10) is Some);
        if !(u is B) {
            assert(t.drop_last() =~= d);
        }
    }
}

/// Which kinds of output sections a symbol pattern places.
#[derive(Clone, Debug)]
pub struct SymbolTypes {
    pub text: bool,
    pub rodata: bool,
    pub datarel: bool,
}

/// The section a crate is assigned to, and whether its dependencies follow it.
#[derive(Clone, Debug)]
pub struct CratePlacement {
    pub section: String,
    pub include_dependencies: bool,
}

/// The section a symbol pattern is assigned to.
#[derive(Clone, Debug)]
pub struct SymPlacement {
    pub section: String,
    pub symbol_types: SymbolTypes,
}

/// A region of flash.
#[derive(Clone, Debug)]
pub struct Section {
    pub origin: ByteUnit,
    pub length: ByteUnit,
    pub priority: u32,
    pub default: bool,
}

/// The region of RAM.
#[derive(Clone, Debug)]
pub struct Ram {
    pub origin: ByteUnit,
    pub length: ByteUnit,
}

impl Ram {
    pub fn new(origin: ByteUnit, length: ByteUnit) -> (r: Ram)
        ensures
            r.origin == origin,
            r.length == length,
    {
        Ram { origin, length }
    }
}

/// The whole configuration. Sections, crates and symbols are kept in the order in
/// which they were given, each under its name.
#[derive(Clone, Debug)]
pub struct Config {
    pub ram: Ram,
    pub sections: Vec<(String, Section)>,
    pub crates: Option<Vec<(String, CratePlacement)>>,
    pub symbols: Option<Vec<(String, SymPlacement)>>,
}

/// Errors when loading the configuration file.
#[derive(Debug)]
pub enum ConfigLoadError {
    TomlParseError(toml::de::Error),
    FileError(FileError),
}

/// Ways in which a configuration can be wrong.
#[derive(Debug, Clone)]
pub enum ConfigValidationError {
    Overlap(String, String),
    ParseError(UnitParseError),
    ZeroSection(String),
    OverFlow(String),
    DoublePrio(String, u32),
    NonExistentSection(String, String),
    MultipleDefaults,
    SymbolWithoutSections(String),
}

/// A validation error with its names taken as character sequences.
pub enum ConfigProblem {
    Overlap(Seq<char>, Seq<char>),
    ParseError(Seq<char>),
    ZeroSection(Seq<char>),
    OverFlow(Seq<char>),
    DoublePrio(Seq<char>, u32),
    NonExistentSection(Seq<char>, Seq<char>),
    MultipleDefaults,
    SymbolWithoutSections(Seq<char>),
}

impl View for ConfigValidationError {
    type V = ConfigProblem;

    open spec fn view(&self) -> ConfigProblem {
        match self {
            ConfigValidationError::Overlap(a, b) => ConfigProblem::Overlap(a@, b@),
            ConfigValidationError::ParseError(e) => ConfigProblem::ParseError(e@),
            ConfigValidationError::ZeroSection(a) => ConfigProblem::ZeroSection(a@),
            ConfigValidationError::OverFlow(a) => ConfigProblem::OverFlow(a@),
            ConfigValidationError::DoublePrio(a, p) => ConfigProblem::DoublePrio(a@, *p),
            ConfigValidationError::NonExistentSection(a, b) => ConfigProblem::NonExistentSection(
                a@,
                b@,
            ),
            ConfigValidationError::MultipleDefaults => ConfigProblem::MultipleDefaults,
            ConfigValidationError::SymbolWithoutSections(a) => ConfigProblem::SymbolWithoutSections(
                a@,
            ),
        }
    }
}

/// `name` is the name of one of the sections.
pub open spec fn has_section(secs: Seq<(String, Section)>, name: Seq<char>) -> bool {
    exists|i: int| 0 <= i < secs.len() && (#[trigger] secs[i]).0@ == name
}

/// No two sections share a name, as in a table keyed by name.
pub open spec fn section_names_distinct(secs: Seq<(String, Section)>) -> bool {
    forall|i: int, j: int|
        0 <= i < j < secs.len() ==> (#[trigger] secs[i]).0@ != (#[trigger] secs[j]).0@
}

/// The first symbol, from index `k` on, placed in a section that does not exist.
pub open spec fn symbol_section_missing_from(
    syms: Seq<(String, SymPlacement)>,
    secs: Seq<(String, Section)>,
    k: int,
) -> Option<ConfigProblem>
    decreases syms.len() - k,
{
    if k < 0 || k >= syms.len() {
        None
    } else if !has_section(secs, syms[k].1.section@) {
        Some(ConfigProblem::NonExistentSection(syms[k].0@, syms[k].1.section@))
    } else {
        symbol_section_missing_from(syms, secs, k + 1)
    }
}

/// The first crate, from index `k` on, placed in a section that does not exist.
pub open spec fn crate_section_missing_from(
    crates: Seq<(String, CratePlacement)>,
    secs: Seq<(String, Section)>,
    k: int,
) -> Option<ConfigProblem>
    decreases crates.len() - k,
{
    if k < 0 || k >= crates.len() {
        None
    } else if !has_section(secs, crates[k].1.section@) {
        Some(ConfigProblem::NonExistentSection(crates[k].0@, crates[k].1.section@))
    } else {
        crate_section_missing_from(crates, secs, k + 1)
    }
}

/// A symbol placement that places none of its kinds of sections.
pub open spec fn emits_nothing(p: SymPlacement) -> bool {
    !p.symbol_types.text && !p.symbol_types.rodata && !p.symbol_types.datarel
}

/// The first symbol, from index `k` on, that places no kind of section.
pub open spec fn silent_symbol_from(syms: Seq<(String, SymPlacement)>, k: int) -> Option<
    ConfigProblem,
>
    decreases syms.len() - k,
{
    if k < 0 || k >= syms.len() {
        None
    } else if emits_nothing(syms[k].1) {
        Some(ConfigProblem::SymbolWithoutSections(syms[k].0@))
    } else {
        silent_symbol_from(syms, k + 1)
    }
}

/// The half-open ranges `[o1, e1)` and `[o2, e2)` share a byte.
pub open spec fn ranges_overlap(o1: int, e1: int, o2: int, e2: int) -> bool {
    o1 < e2 && o2 < e1
}

/// The first byte after a section.
pub open spec fn section_end(s: Section) -> int {
    s.origin.spec_bytes() + s.length.spec_bytes()
}

/// Region `k` of a configuration: RAM is region 0, section `i` is region `i + 1`.
pub open spec fn region_name(c: Config, k: int) -> Seq<char> {
    if k == 0 {
        "ram"@
    } else {
        c.sections@[k - 1].0@
    }
}

pub open spec fn region_origin(c: Config, k: int) -> int {
    if k == 0 {
        c.ram.origin.spec_bytes()
    } else {
        c.sections@[k - 1].1.origin.spec_bytes()
    }
}

pub open spec fn region_end(c: Config, k: int) -> int {
    if k == 0 {
        c.ram.origin.spec_bytes() + c.ram.length.spec_bytes()
    } else {
        section_end(c.sections@[k - 1].1)
    }
}

/// The first region among `k..=i` (RAM and the sections before section `i`) that
/// overlaps section `i`.
pub open spec fn first_overlap_from(c: Config, i: int, k: int) -> Option<int>
    decreases i + 1 - k,
{
    if k < 0 || k > i {
        None
    } else if ranges_overlap(
        region_origin(c, k),
        region_end(c, k),
        c.sections@[i].1.origin.spec_bytes(),
        section_end(c.sections@[i].1),
    ) {
        Some(k)
    } else {
        first_overlap_from(c, i, k + 1)
    }
}

/// What is wrong with section `i`, given that nothing before it was.
pub open spec fn section_problem_at(c: Config, i: int) -> Option<ConfigProblem> {
    let secs = c.sections@;
    let s = secs[i].1;
    let name = secs[i].0@;
    if s.default && exists|j: int| 0 <= j < i && (#[trigger] secs[j]).1.default {
        Some(ConfigProblem::MultipleDefaults)
    } else if exists|j: int| 0 <= j < i && (#[trigger] secs[j]).1.priority == s.priority {
        Some(ConfigProblem::DoublePrio(name, s.priority))
    } else if s.length.spec_bytes() == 0 {
        Some(ConfigProblem::ZeroSection(name))
    } else if section_end(s) > u64::MAX {
        Some(ConfigProblem::OverFlow(name))
    } else {
        match first_overlap_from(c, i, 0) {
            Some(k) => Some(ConfigProblem::Overlap(name, region_name(c, k))),
            None => None,
        }
    }
}

/// The first problem among the sections from index `i` on.
pub open spec fn section_problem_from(c: Config, i: int) -> Option<ConfigProblem>
    decreases c.sections@.len() - i,
{
    if i < 0 || i >= c.sections@.len() {
        None
    } else {
        match section_problem_at(c, i) {
            Some(p) => Some(p),
            None => section_problem_from(c, i + 1),
        }
    }
}

/// What is wrong with RAM.
pub open spec fn ram_problem(c: Config) -> Option<ConfigProblem> {
    if c.ram.length.spec_bytes() == 0 {
        Some(ConfigProblem::ZeroSection("ram"@))
    } else if c.ram.origin.spec_bytes() + c.ram.length.spec_bytes() > u64::MAX {
        Some(ConfigProblem::OverFlow("ram"@))
    } else {
        None
    }
}

/// The first symbol, then the first crate, placed in a section that does not exist.
pub open spec fn existence_outcome(c: Config) -> Option<ConfigProblem> {
    let secs = c.sections@;
    let sym_missing = match c.symbols {
        Some(syms) => symbol_section_missing_from(syms@, secs, 0),
        None => None,
    };
    if sym_missing is Some {
        sym_missing
    } else {
        match c.crates {
            Some(crates) => crate_section_missing_from(crates@, secs, 0),
            None => None,
        }
    }
}

/// The first symbol that places no kind of section.
pub open spec fn silent_outcome(c: Config) -> Option<ConfigProblem> {
    match c.symbols {
        Some(syms) => silent_symbol_from(syms@, 0),
        None => None,
    }
}

/// The problem that validation reports, checked in this order: symbols placed in
/// missing sections, crates placed in missing sections, symbols that place nothing,
/// RAM, and then each section in turn.
pub open spec fn validation_outcome(c: Config) -> Option<ConfigProblem> {
    let secs = c.sections@;
    if existence_outcome(c) is Some {
        existence_outcome(c)
    } else if silent_outcome(c) is Some {
        silent_outcome(c)
    } else if ram_problem(c) is Some {
        ram_problem(c)
    } else {
        section_problem_from(c, 0)
    }
}

/// Section `i` is marked as the default after an earlier section was.
pub open spec fn second_default(c: Config, i: int) -> bool {
    c.sections@[i].1.default && exists|j: int| 0 <= j < i && (#[trigger] c.sections@[j]).1.default
}

/// Every byte unit that validation reads counts a number of bytes that fits in a
/// `u64`. RAM's units are read once every placement names an existing section and
/// every symbol places something; a section's units once RAM and the sections
/// before it passed and it is not a second default section.
pub open spec fn read_units_fit(c: Config) -> bool {
    existence_outcome(c) is None && silent_outcome(c) is None ==> {
        &&& c.ram.origin.spec_bytes() <= u64::MAX
        &&& c.ram.length.spec_bytes() <= u64::MAX
        &&& ram_problem(c) is None ==> forall|i: int|
            0 <= i < c.sections@.len() && (forall|j: int|
                0 <= j < i ==> #[trigger] section_problem_at(c, j) is None) && !second_default(c, i)
                ==> (#[trigger] c.sections@[i]).1.origin.spec_bytes() <= u64::MAX
                && c.sections@[i].1.length.spec_bytes() <= u64::MAX
    }
}

/// Where RAM and the first `k` sections fit and passed, and section `k` (if any)
/// does not pass or is a second default section, every unit that validation reads
/// fits.
proof fn lemma_read_units_fit_from(c: Config, k: int)
    requires
        0 <= k <= c.sections@.len(),
        existence_outcome(c) is None,
        silent_outcome(c) is None,
        ram_problem(c) is None,
        c.ram.origin.spec_bytes() <= u64::MAX,
        c.ram.length.spec_bytes() <= u64::MAX,
        forall|j: int|
            0 <= j < k && j < c.sections@.len() ==> (#[trigger] c.sections@[j]).1.origin.spec_bytes()
                <= u64::MAX && c.sections@[j].1.length.spec_bytes() <= u64::MAX,
        k < c.sections@.len() ==> second_default(c, k) || k > 0 && section_problem_at(c, k - 1) is Some,
        forall|j: int| 0 <= j < k - 1 ==> #[trigger] section_problem_at(c, j) is None,
    ensures
        read_units_fit(c),
{
    assert forall|i: int|
        0 <= i < c.sections@.len() && (forall|j: int|
            0 <= j < i ==> #[trigger] section_problem_at(c, j) is None) && !second_default(c, i)
        implies (#[trigger] c.sections@[i]).1.origin.spec_bytes() <= u64::MAX
        && c.sections@[i].1.length.spec_bytes() <= u64::MAX by {
        if i >= k {
            if second_default(c, k) {
                if i > k {
                    assert(section_problem_at(c, k) is Some);
                }
            } else {
                assert(section_problem_at(c, k - 1) is Some);
            }
        }
    }
}

/// A configuration that validation accepts, stated directly.
pub open spec fn config_valid(c: Config) -> bool {
    let secs = c.sections@;
    &&& section_names_distinct(secs)
    &&& c.symbols matches Some(syms) ==> forall|i: int|
        0 <= i < syms@.len() ==> has_section(secs, (#[trigger] syms@[i]).1.section@)
    &&& c.crates matches Some(crates) ==> forall|i: int|
        0 <= i < crates@.len() ==> has_section(secs, (#[trigger] crates@[i]).1.section@)
    &&& c.symbols matches Some(syms) ==> forall|i: int|
        0 <= i < syms@.len() ==> !emits_nothing((#[trigger] syms@[i]).1)
    &&& c.ram.length.spec_bytes() > 0
    &&& c.ram.origin.spec_bytes() + c.ram.length.spec_bytes() <= u64::MAX
    &&& forall|i: int|
        0 <= i < secs.len() ==> (#[trigger] secs[i]).1.length.spec_bytes() > 0 && section_end(
            secs[i].1,
        ) <= u64::MAX
    &&& forall|i: int, j: int|
        0 <= i < j < secs.len() ==> !((#[trigger] secs[i]).1.default && (#[trigger] secs[j]).1.default)
    &&& forall|i: int, j: int|
        0 <= i < j < secs.len() ==> (#[trigger] secs[i]).1.priority != (#[trigger] secs[j]).1.priority
    &&& forall|i: int|
        0 <= i < secs.len() ==> !ranges_overlap(
            c.ram.origin.spec_bytes(),
            c.ram.origin.spec_bytes() + c.ram.length.spec_bytes(),
            (#[trigger] secs[i]).1.origin.spec_bytes(),
            section_end(secs[i].1),
        )
    &&& forall|i: int, j: int|
        0 <= i < j < secs.len() ==> !ranges_overlap(
            (#[trigger] secs[i]).1.origin.spec_bytes(),
            section_end(secs[i].1),
            (#[trigger] secs[j]).1.origin.spec_bytes(),
            section_end(secs[j].1),
        )
}

/// Index of the first section, from `k` on, named `name`.
pub open spec fn section_index_from(secs: Seq<(String, Section)>, name: Seq<char>, k: int) -> Option<
    int,
>
    decreases secs.len() - k,
{
    if k < 0 || k >= secs.len() {
        None
    } else if secs[k].0@ == name {
        Some(k)
    } else {
        section_index_from(secs, name, k + 1)
    }
}

/// Index of the section named `name`.
pub open spec fn section_index(secs: Seq<(String, Section)>, name: Seq<char>) -> Option<int> {
    section_index_from(secs, name, 0)
}

pub proof fn lemma_section_index_from(secs: Seq<(String, Section)>, name: Seq<char>, k: int)
    requires
        0 <= k <= secs.len(),
    ensures
        match section_index_from(secs, name, k) {
            Some(i) => k <= i < secs.len() && secs[i].0@ == name,
            None => forall|j: int| k <= j < secs.len() ==> (#[trigger] secs[j]).0@ != name,
        },
    decreases secs.len() - k,
{
    if k < secs.len() {
        lemma_section_index_from(secs, name, k + 1);
    }
}

/// Index of the first section named `name`.
pub fn find_section(secs: &Vec<(String, Section)>, name: &String) -> (r: Option<usize>)
    ensures
        match r {
            Some(i) => i < secs@.len() && secs@[i as int].0@ == name@ && forall|j: int|
                0 <= j < i ==> (#[trigger] secs@[j]).0@ != name@,
            None => !has_section(secs@, name@),
        },
        match r {
            Some(i) => section_index(secs@, name@) == Some(i as int),
            None => section_index(secs@, name@) is None,
        },
{
    let mut i: usize = 0;
    while i < secs.len()
        invariant
            i <= secs@.len(),
            forall|j: int| 0 <= j < i ==> (#[trigger] secs@[j]).0@ != name@,
            section_index(secs@, name@) == section_index_from(secs@, name@, i as int),
        decreases secs.len() - i,
    {
        if secs[i].0 == *name {
            return Some(i);
        }
        i = i + 1;
    }
    None
}

/// A region already taken, with the first byte after it.
pub struct OccupiedSpace {
    pub name: String,
    pub origin: u64,
    pub end: u64,
}

/// Regions and priorities seen so far while checking a configuration.
pub struct ConfigChecker {
    pub occupied: Vec<OccupiedSpace>,
    pub prios: Vec<u32>,
}

/// The first region taken, from index `k` on, that shares a byte with
/// `[origin, end)`.
pub open spec fn first_occupied_overlap(occ: Seq<OccupiedSpace>, origin: int, end: int, k: int) -> Option<
    int,
>
    decreases occ.len() - k,
{
    if k < 0 || k >= occ.len() {
        None
    } else if ranges_overlap(occ[k].origin as int, occ[k].end as int, origin, end) {
        Some(k)
    } else {
        first_occupied_overlap(occ, origin, end, k + 1)
    }
}

/// The regions taken are non-empty and share no byte.
pub open spec fn occupied_disjoint(occ: Seq<OccupiedSpace>) -> bool {
    &&& forall|i: int| 0 <= i < occ.len() ==> (#[trigger] occ[i]).origin < occ[i].end
    &&& forall|i: int, j: int|
        0 <= i < j < occ.len() ==> !ranges_overlap(
            (#[trigger] occ[i]).origin as int,
            occ[i].end as int,
            (#[trigger] occ[j]).origin as int,
            occ[j].end as int,
        )
}

proof fn lemma_no_occupied_overlap(occ: Seq<OccupiedSpace>, origin: int, end: int, k: int)
    requires
        0 <= k <= occ.len(),
        first_occupied_overlap(occ, origin, end, k) is None,
    ensures
        forall|i: int|
            k <= i < occ.len() ==> !ranges_overlap(
                (#[trigger] occ[i]).origin as int,
                occ[i].end as int,
                origin,
                end,
            ),
    decreases occ.len() - k,
{
    if k < occ.len() {
        lemma_no_occupied_overlap(occ, origin, end, k + 1);
    }
}

/// What checking a section finds: a priority seen before, an empty section, one
/// that ends past the address space, or one that shares a byte with a region
/// taken.
pub open spec fn check_problem(
    occ: Seq<OccupiedSpace>,
    prios: Seq<u32>,
    name: Seq<char>,
    origin: int,
    len: int,
    prio: Option<u32>,
) -> Option<ConfigProblem> {
    if prio matches Some(p) && prios.contains(p) {
        Some(ConfigProblem::DoublePrio(name, prio->0))
    } else if len == 0 {
        Some(ConfigProblem::ZeroSection(name))
    } else if origin + len > u64::MAX {
        Some(ConfigProblem::OverFlow(name))
    } else {
        match first_occupied_overlap(occ, origin, origin + len, 0) {
            Some(k) => Some(ConfigProblem::Overlap(name, occ[k].name@)),
            None => None,
        }
    }
}

impl ConfigChecker {
    /// A checker that has seen nothing.
    pub fn new() -> (r: Self)
        ensures
            r.occupied@.len() == 0,
            r.prios@.len() == 0,
    {
        ConfigChecker { occupied: Vec::new(), prios: Vec::new() }
    }

    /// Checks a section against the regions and priorities seen so far, and
    /// records it: its priority where it has one not seen before (even where a later
    /// check fails), and its region where every check passes.
    pub fn check(&mut self, name: String, origin: u64, len: u64, prio: Option<u32>) -> (r: Result<
        (),
        ConfigValidationError,
    >)
        ensures
            match check_problem(
                old(self).occupied@,
                old(self).prios@,
                name@,
                origin as int,
                len as int,
                prio,
            ) {
                Some(p) => r matches Err(e) && e@ == p,
                None => {
                    &&& r is Ok
                    &&& final(self).occupied@ == old(self).occupied@.push(
                        (OccupiedSpace { name: name, origin: origin, end: (origin + len) as u64 }),
                    )
                    &&& final(self).prios@ == match prio {
                        Some(p) => old(self).prios@.push(p),
                        None => old(self).prios@,
                    }
                },
            },
            r is Err ==> final(self).occupied@ == old(self).occupied@,
            final(self).prios@ == match prio {
                Some(p) => if old(self).prios@.contains(p) {
                    old(self).prios@
                } else {
                    old(self).prios@.push(p)
                },
                None => old(self).prios@,
            },
            occupied_disjoint(old(self).occupied@) ==> occupied_disjoint(final(self).occupied@),
    {
        if let Some(p) = prio {
            let mut j: usize = 0;
            while j < self.prios.len()
                invariant
                    j <= self.prios@.len(),
                    self.prios@ == old(self).prios@,
                    self.occupied@ == old(self).occupied@,
                    forall|k: int| 0 <= k < j ==> self.prios@[k] != p,
                    prio == Some(p),
                decreases self.prios.len() - j,
            {
                if self.prios[j] == p {
                    assert(self.prios@.contains(p));
                    return Err(ConfigValidationError::DoublePrio(name, p));
                }
                j = j + 1;
            }
            assert(!old(self).prios@.contains(p));
            self.prios.push(p);
        }
        if len == 0 {
            return Err(ConfigValidationError::ZeroSection(name));
        }
        let end = match origin.checked_add(len) {
            Some(end) => end,
            None => {
                return Err(ConfigValidationError::OverFlow(name));
            },
        };
        let mut k: usize = 0;
        while k < self.occupied.len()
            invariant
                k <= self.occupied@.len(),
                self.occupied@ == old(self).occupied@,
                self.prios@ == match prio {
                    Some(p) => old(self).prios@.push(p),
                    None => old(self).prios@,
                },
                end == origin + len,
                len != 0,
                !(prio matches Some(pp) && old(self).prios@.contains(pp)),
                first_occupied_overlap(self.occupied@, origin as int, end as int, 0)
                    == first_occupied_overlap(self.occupied@, origin as int, end as int, k as int),
            decreases self.occupied.len() - k,
        {
            if self.occupied[k].origin < end && origin < self.occupied[k].end {
                return Err(ConfigValidationError::Overlap(name, self.occupied[k].name.clone()));
            }
            k = k + 1;
        }
        proof {
            lemma_no_occupied_overlap(self.occupied@, origin as int, end as int, 0);
        }
        let ghost before = self.occupied@;
        self.occupied.push(OccupiedSpace { name, origin, end });
        proof {
            if occupied_disjoint(before) {
                assert forall|i: int, j: int|
                    0 <= i < j < self.occupied@.len() implies !ranges_overlap(
                    (#[trigger] self.occupied@[i]).origin as int,
                    self.occupied@[i].end as int,
                    (#[trigger] self.occupied@[j]).origin as int,
                    self.occupied@[j].end as int,
                ) by {
                    if j < before.len() {
                        assert(self.occupied@[i] == before[i] && self.occupied@[j] == before[j]);
                    } else {
                        assert(self.occupied@[i] == before[i]);
                    }
                }
            }
        }
        Ok(())
    }
}

proof fn lemma_overlap_correspond(c: Config, occ: Seq<OccupiedSpace>, i: int, k: int)
    requires
        0 <= i < c.sections@.len(),
        occ.len() == i + 1,
        forall|kk: int|
            0 <= kk <= i ==> (#[trigger] occ[kk]).origin == region_origin(c, kk) && occ[kk].end
                == region_end(c, kk),
        0 <= k <= i + 1,
    ensures
        first_occupied_overlap(
            occ,
            c.sections@[i].1.origin.spec_bytes(),
            section_end(c.sections@[i].1),
            k,
        ) == first_overlap_from(c, i, k),
    decreases i + 1 - k,
{
    if k <= i {
        assert(occ[k].origin == region_origin(c, k));
        lemma_overlap_correspond(c, occ, i, k + 1);
    }
}

proof fn lemma_symbol_sections_present(syms: Seq<(String, SymPlacement)>, secs: Seq<(String, Section)>, k: int)
    requires
        0 <= k <= syms.len(),
    ensures
        symbol_section_missing_from(syms, secs, k) is None <==> forall|j: int|
            k <= j < syms.len() ==> has_section(secs, (#[trigger] syms[j]).1.section@),
    decreases syms.len() - k,
{
    if k < syms.len() {
        lemma_symbol_sections_present(syms, secs, k + 1);
    }
}

proof fn lemma_crate_sections_present(crates: Seq<(String, CratePlacement)>, secs: Seq<(String, Section)>, k: int)
    requires
        0 <= k <= crates.len(),
    ensures
        crate_section_missing_from(crates, secs, k) is None <==> forall|j: int|
            k <= j < crates.len() ==> has_section(secs, (#[trigger] crates[j]).1.section@),
    decreases crates.len() - k,
{
    if k < crates.len() {
        lemma_crate_sections_present(crates, secs, k + 1);
    }
}

proof fn lemma_symbols_emit(syms: Seq<(String, SymPlacement)>, k: int)
    requires
        0 <= k <= syms.len(),
    ensures
        silent_symbol_from(syms, k) is None <==> forall|j: int|
            k <= j < syms.len() ==> !emits_nothing((#[trigger] syms[j]).1),
    decreases syms.len() - k,
{
    if k < syms.len() {
        lemma_symbols_emit(syms, k + 1);
    }
}

proof fn lemma_no_overlap_from(c: Config, i: int, k: int)
    requires
        0 <= i < c.sections@.len(),
        0 <= k <= i + 1,
    ensures
        first_overlap_from(c, i, k) is None <==> forall|kk: int|
            k <= kk <= i ==> !ranges_overlap(
                #[trigger] region_origin(c, kk),
                region_end(c, kk),
                c.sections@[i].1.origin.spec_bytes(),
                section_end(c.sections@[i].1),
            ),
        first_overlap_from(c, i, k) matches Some(kk) ==> k <= kk <= i,
    decreases i + 1 - k,
{
    if k <= i {
        lemma_no_overlap_from(c, i, k + 1);
    }
}

proof fn lemma_section_problems_none(c: Config, i: int)
    requires
        0 <= i <= c.sections@.len(),
    ensures
        section_problem_from(c, i) is None <==> forall|j: int|
            i <= j < c.sections@.len() ==> (#[trigger] section_problem_at(c, j)) is None,
    decreases c.sections@.len() - i,
{
    if i < c.sections@.len() {
        lemma_section_problems_none(c, i + 1);
    }
}

/// Validation finds no problem exactly when the configuration meets every rule:
/// placements name existing sections, every symbol places at least one kind of
/// section, RAM and sections are non-empty and end within the address space, at
/// most one section is the default, priorities are distinct, and no two of RAM and
/// the sections share a byte.
pub proof fn lemma_validation_outcome_iff_valid(c: Config)
    requires
        section_names_distinct(c.sections@),
    ensures
        validation_outcome(c) is None <==> config_valid(c),
{
    let secs = c.sections@;
    if let Some(syms) = c.symbols {
        lemma_symbol_sections_present(syms@, secs, 0);
        lemma_symbols_emit(syms@, 0);
    }
    if let Some(crates) = c.crates {
        lemma_crate_sections_present(crates@, secs, 0);
    }
    lemma_section_problems_none(c, 0);
    if validation_outcome(c) is None {
        assert forall|i: int|
            0 <= i < secs.len() implies (#[trigger] secs[i]).1.length.spec_bytes() > 0
            && section_end(secs[i].1) <= u64::MAX by {
            assert(section_problem_at(c, i) is None);
        }
        assert forall|i: int, j: int| 0 <= i < j < secs.len() implies !((#[trigger] secs[i]).1.default
            && (#[trigger] secs[j]).1.default) by {
            assert(section_problem_at(c, j) is None);
        }
        assert forall|i: int, j: int| 0 <= i < j < secs.len() implies (#[trigger] secs[i]).1.priority
            != (#[trigger] secs[j]).1.priority by {
            assert(section_problem_at(c, j) is None);
        }
        assert forall|i: int|
            0 <= i < secs.len() implies !ranges_overlap(
            c.ram.origin.spec_bytes(),
            c.ram.origin.spec_bytes() + c.ram.length.spec_bytes(),
            (#[trigger] secs[i]).1.origin.spec_bytes(),
            section_end(secs[i].1),
        ) by {
            assert(section_problem_at(c, i) is None);
            lemma_no_overlap_from(c, i, 0);
            assert(region_origin(c, 0) == c.ram.origin.spec_bytes());
        }
        assert forall|i: int, j: int|
            0 <= i < j < secs.len() implies !ranges_overlap(
            (#[trigger] secs[i]).1.origin.spec_bytes(),
            section_end(secs[i].1),
            (#[trigger] secs[j]).1.origin.spec_bytes(),
            section_end(secs[j].1),
        ) by {
            assert(section_problem_at(c, j) is None);
            lemma_no_overlap_from(c, j, 0);
            assert(region_origin(c, i + 1) == secs[i].1.origin.spec_bytes());
        }
    }
    if config_valid(c) {
        assert forall|j: int| 0 <= j < secs.len() implies (#[trigger] section_problem_at(c, j)) is None by {
            lemma_no_overlap_from(c, j, 0);
            assert forall|kk: int| 0 <= kk <= j implies !ranges_overlap(
                #[trigger] region_origin(c, kk),
                region_end(c, kk),
                secs[j].1.origin.spec_bytes(),
                section_end(secs[j].1),
            ) by {
                if kk > 0 {
                    assert(secs[kk - 1] == secs[kk - 1]);
                }
            }
            if secs[j].1.default {
                assert(!exists|jj: int| 0 <= jj < j && (#[trigger] secs[jj]).1.default);
            }
            assert(!exists|jj: int| 0 <= jj < j && (#[trigger] secs[jj]).1.priority == secs[j].1.priority);
        }
    }
}

impl Config {
    fn section_existense(&self) -> (r: Result<(), ConfigValidationError>)
        ensures
            match existence_outcome(*self) {
                Some(p) => r matches Err(e) && e@ == p,
                None => r is Ok,
            },
    {
        if let Some(symbols) = &self.symbols {
            let mut i: usize = 0;
            while i < symbols.len()
                invariant
                    i <= symbols@.len(),
                    self.symbols == Some(*symbols),
                    symbol_section_missing_from(symbols@, self.sections@, 0)
                        == symbol_section_missing_from(symbols@, self.sections@, i as int),
                decreases symbols.len() - i,
            {
                let (name, sym) = &symbols[i];
                if find_section(&self.sections, &sym.section).is_none() {
                    return Err(
                        ConfigValidationError::NonExistentSection(name.clone(), sym.section.clone()),
                    );
                }
                i = i + 1;
            }
        }
        if let Some(crates) = &self.crates {
            let mut i: usize = 0;
            while i < crates.len()
                invariant
                    i <= crates@.len(),
                    self.crates == Some(*crates),
                    existence_outcome(*self) == crate_section_missing_from(
                        crates@,
                        self.sections@,
                        i as int,
                    ),
                decreases crates.len() - i,
            {
                let (name, p_crate) = &crates[i];
                if find_section(&self.sections, &p_crate.section).is_none() {
                    return Err(
                        ConfigValidationError::NonExistentSection(
                            name.clone(),
                            p_crate.section.clone(),
                        ),
                    );
                }
                i = i + 1;
            }
        }
        Ok(())
    }

    fn check_symbol_emit(&self) -> (r: Result<(), ConfigValidationError>)
        ensures
            match silent_outcome(*self) {
                Some(p) => r matches Err(e) && e@ == p,
                None => r is Ok,
            },
    {
        if let Some(symbols) = &self.symbols {
            let mut i: usize = 0;
            while i < symbols.len()
                invariant
                    i <= symbols@.len(),
                    self.symbols == Some(*symbols),
                    silent_symbol_from(symbols@, 0) == silent_symbol_from(symbols@, i as int),
                decreases symbols.len() - i,
            {
                let (name, symbol) = &symbols[i];
                if !symbol.symbol_types.text && !symbol.symbol_types.rodata
                    && !symbol.symbol_types.datarel {
                    return Err(ConfigValidationError::SymbolWithoutSections(name.clone()));
                }
                i = i + 1;
            }
        }
        Ok(())
    }

    /// Checks the configuration; the first problem found is returned, in the order
    /// that [`validation_outcome`] gives.
    pub fn validate(&self) -> (r: Result<(), ConfigValidationError>)
        requires
            read_units_fit(*self),
            section_names_distinct(self.sections@),
        ensures
            match validation_outcome(*self) {
                Some(p) => r matches Err(e) && e@ == p,
                None => r is Ok,
            },
            r is Ok <==> config_valid(*self),
    {
        proof {
            lemma_validation_outcome_iff_valid(*self);
        }
        match self.validate_checked() {
            Some(r) => r,
            None => Ok(()),
        }
    }

    /// Checks the configuration as [`Config::validate`] does; `None` where a byte
    /// unit that the check reads counts more bytes than a `u64` holds.
    pub fn validate_checked(&self) -> (r: Option<Result<(), ConfigValidationError>>)
        ensures
            r is None <==> !read_units_fit(*self),
            r matches Some(x) ==> match validation_outcome(*self) {
                Some(p) => x matches Err(e) && e@ == p,
                None => x is Ok,
            },
    {
        match self.section_existense() {
            Ok(()) => {},
            Err(e) => {
                return Some(Err(e));
            },
        }
        match self.check_symbol_emit() {
            Ok(()) => {},
            Err(e) => {
                return Some(Err(e));
            },
        }
        let ram_origin = match self.ram.origin.checked_bytes() {
            Some(b) => b,
            None => {
                return None;
            },
        };
        let ram_length = match self.ram.length.checked_bytes() {
            Some(b) => b,
            None => {
                return None;
            },
        };
        let mut checker = ConfigChecker::new();
        match checker.check(String::from_str("ram"), ram_origin, ram_length, None) {
            Ok(()) => {},
            Err(e) => {
                return Some(Err(e));
            },
        }
        let ghost c = *self;
        let secs = &self.sections;
        let mut default_found = false;
        let mut i: usize = 0;
        while i < secs.len()
            invariant
                c == *self,
                secs@ == c.sections@,
                existence_outcome(c) is None,
                silent_outcome(c) is None,
                ram_problem(c) is None,
                c.ram.origin.spec_bytes() <= u64::MAX,
                c.ram.length.spec_bytes() <= u64::MAX,
                i <= secs@.len(),
                forall|j: int| 0 <= j < i ==> #[trigger] section_problem_at(c, j) is None,
                forall|j: int|
                    0 <= j < i ==> (#[trigger] secs@[j]).1.origin.spec_bytes() <= u64::MAX
                        && secs@[j].1.length.spec_bytes() <= u64::MAX,
                validation_outcome(c) == section_problem_from(c, 0),
                section_problem_from(c, 0) == section_problem_from(c, i as int),
                checker.occupied@.len() == i + 1,
                forall|k: int|
                    0 <= k <= i ==> (#[trigger] checker.occupied@[k]).name@ == region_name(c, k)
                        && checker.occupied@[k].origin == region_origin(c, k)
                        && checker.occupied@[k].end == region_end(c, k),
                checker.prios@.len() == i,
                forall|j: int| 0 <= j < i ==> (#[trigger] checker.prios@[j]) == secs@[j].1.priority,
                default_found == exists|j: int| 0 <= j < i && (#[trigger] secs@[j]).1.default,
            decreases secs.len() - i,
        {
            let (name, section) = &secs[i];
            let ghost iv = i as int;
            if section.default {
                if default_found {
                    proof {
                        lemma_read_units_fit_from(c, iv);
                    }
                    return Some(Err(ConfigValidationError::MultipleDefaults));
                } else {
                    default_found = true;
                }
            }
            let origin = match section.origin.checked_bytes() {
                Some(b) => b,
                None => {
                    return None;
                },
            };
            let len = match section.length.checked_bytes() {
                Some(b) => b,
                None => {
                    return None;
                },
            };
            proof {
                let p = section.priority;
                if checker.prios@.contains(p) {
                    let j = choose|j: int| 0 <= j < checker.prios@.len() && checker.prios@[j] == p;
                    assert(secs@[j].1.priority == p);
                }
                if exists|j: int| 0 <= j < iv && (#[trigger] secs@[j]).1.priority == p {
                    let j = choose|j: int| 0 <= j < iv && (#[trigger] secs@[j]).1.priority == p;
                    assert(checker.prios@[j] == p);
                }
                lemma_overlap_correspond(c, checker.occupied@, iv, 0);
                lemma_no_overlap_from(c, iv, 0);
                assert(c.sections@[iv] == (*name, *section));
                match first_overlap_from(c, iv, 0) {
                    Some(k) => {
                        assert(checker.occupied@[k].name@ == region_name(c, k));
                    },
                    None => {},
                }
                assert(check_problem(
                    checker.occupied@,
                    checker.prios@,
                    name@,
                    origin as int,
                    len as int,
                    Some(p),
                ) == section_problem_at(c, iv));
                assert(section_problem_from(c, iv) == match section_problem_at(c, iv) {
                    Some(q) => Some(q),
                    None => section_problem_from(c, iv + 1),
                });
            }
            let ghost old_checker_occ = checker.occupied@;
            match checker.check(name.clone(), origin, len, Some(section.priority)) {
                Ok(()) => {},
                Err(e) => {
                    proof {
                        lemma_read_units_fit_from(c, iv + 1);
                    }
                    return Some(Err(e));
                },
            }
            proof {
                assert(checker.occupied@[iv + 1].name@ == region_name(c, iv + 1));
                assert forall|k: int| 0 <= k <= iv + 1 implies (#[trigger] checker.occupied@[k]).name@
                    == region_name(c, k) && checker.occupied@[k].origin == region_origin(c, k)
                    && checker.occupied@[k].end == region_end(c, k) by {
                    if k <= iv {
                        assert(checker.occupied@[k] == old_checker_occ[k]);
                    }
                }
            }
            i = i + 1;
        }
        proof {
            lemma_read_units_fit_from(c, c.sections@.len() as int);
        }
        Some(Ok(()))
    }
}

/// Errors when adding a section to the configuration.
#[derive(Debug)]
pub enum ConfigModificationError {
    SectionNameExists(String),
    Validation(ConfigValidationError),
    FileError(FileError),
    TomlError(toml_edit::TomlError),
    FailedToFind(&'static str),
    UnexpectedType(&'static str),
}

/// `c` is `base` with a section called `name` added last.
pub open spec fn extends_by(c: Config, base: Config, name: Seq<char>, s: Section) -> bool {
    &&& c.ram == base.ram
    &&& c.crates == base.crates
    &&& c.symbols == base.symbols
    &&& c.sections@.len() == base.sections@.len() + 1
    &&& c.sections@.drop_last() == base.sections@
    &&& c.sections@.last().0@ == name
    &&& c.sections@.last().1 == s
}

impl Config {
    /// Adds a section called `name`, unless one of that name exists, and checks the
    /// configuration with it (the section stays even where the check fails).
    pub fn add_section(
        &mut self,
        name: &str,
        origin: ByteUnit,
        length: ByteUnit,
        priority: u32,
        default: bool,
    ) -> (r: Result<(), ConfigModificationError>)
        requires
            section_names_distinct(old(self).sections@),
            !has_section(old(self).sections@, name@) ==> forall|c: Config|
                #[trigger] extends_by(c, *old(self), name@, Section { origin, length, priority, default })
                    ==> read_units_fit(c),
        ensures
            has_section(old(self).sections@, name@) ==> (r matches Err(
                ConfigModificationError::SectionNameExists(n),
            ) && n@ == name@) && *final(self) == *old(self),
            !has_section(old(self).sections@, name@) ==> {
                &&& extends_by(
                    *final(self),
                    *old(self),
                    name@,
                    Section { origin, length, priority, default },
                )
                &&& match validation_outcome(*final(self)) {
                    Some(p) => r matches Err(ConfigModificationError::Validation(e)) && e@ == p,
                    None => r is Ok,
                }
            },
            section_names_distinct(final(self).sections@),
    {
        let wanted = String::from_str(name);
        match find_section(&self.sections, &wanted) {
            Some(_) => {
                return Err(ConfigModificationError::SectionNameExists(wanted));
            },
            None => {},
        }
        let new_section = Section { origin, length, priority, default };
        let ghost before = self.sections@;
        self.sections.push((wanted, new_section));
        assert(self.sections@.drop_last() =~= before);
        assert(extends_by(*self, *old(self), name@, new_section));
        match self.validate() {
            Ok(()) => Ok(()),
            Err(e) => Err(ConfigModificationError::Validation(e)),
        }
    }
}

/// What a top-level key of a configuration document holds.
#[derive(Debug, Clone, Copy, PartialEq, Eq, Structural)]
pub enum ItemKind {
    Value,
    Table,
    ArrayOfTables,
}

/// A value of a table entry, as far as a configuration reads it.
pub enum Scalar {
    Text(Seq<char>),
    Integer(i64),
    Boolean(bool),
    /// Any other value: an array, a float, a date, a nested table.
    Other,
}

/// The fields of a table entry, by key.
pub type Fields = Map<Seq<char>, Scalar>;

/// What a document holds, as far as a configuration reads it: the top-level keys
/// whose item is not empty, with what each holds, and for each top-level table its
/// entries by key; an entry that is an inline table or a table maps to its fields,
/// any other entry to `None`.
pub struct TomlModel {
    pub items: Map<Seq<char>, ItemKind>,
    pub tables: Map<Seq<char>, Map<Seq<char>, Option<Fields>>>,
}

/// A value written into a configuration document.
#[derive(Debug)]
pub enum FieldValue {
    Text(String),
    Integer(i64),
    Boolean(bool),
}

impl View for FieldValue {
    type V = Scalar;

    open spec fn view(&self) -> Scalar {
        match self {
            FieldValue::Text(t) => Scalar::Text(t@),
            FieldValue::Integer(i) => Scalar::Integer(*i),
            FieldValue::Boolean(b) => Scalar::Boolean(*b),
        }
    }
}

/// What a `toml_edit` document holds.
pub uninterp spec fn document_model(d: DocumentMut) -> TomlModel;

/// What a `toml_edit` table holds: its entries by key.
pub uninterp spec fn table_entries(t: Table) -> Map<Seq<char>, Option<Fields>>;

/// What a `toml_edit` inline table holds: its fields by key.
pub uninterp spec fn inline_fields(t: InlineTable) -> Fields;

/// What `toml_edit` parses from a text, or `None` where the text is not a TOML
/// document.
pub uninterp spec fn toml_parsed(text: Seq<char>) -> Option<TomlModel>;

/// `DocumentMut::from_str`. The contract says that the text parses exactly where
/// `toml_parsed` gives a model, and that the document holds that model.
#[verifier::external_body]
fn parse_document(text: &str) -> (r: Result<DocumentMut, toml_edit::TomlError>)
    ensures
        r is Ok <==> toml_parsed(text@) is Some,
        r matches Ok(d) ==> toml_parsed(text@) == Some(document_model(d)),
{
    text.parse()
}

/// `Table::get` on the document's root table, with the item told apart by its
/// variant: `None` where the key holds no item.
#[verifier::external_body]
fn document_item(doc: &DocumentMut, key: &str) -> (r: Option<ItemKind>)
    ensures
        r == (if document_model(*doc).items.contains_key(key@) {
            Some(document_model(*doc).items[key@])
        } else {
            None
        }),
{
    match doc.get(key) {
        None => None,
        Some(Item::None) => None,
        Some(Item::Value(_)) => Some(ItemKind::Value),
        Some(Item::Table(_)) => Some(ItemKind::Table),
        Some(Item::ArrayOfTables(_)) => Some(ItemKind::ArrayOfTables),
    }
}

/// `Table::get_mut` on the document's root table, keeping the item only where it
/// is a table. The table handed out holds that table's entries, and what it holds
/// when the borrow ends is what the document then holds under `key`.
#[verifier::external_body]
fn document_table_mut<'a>(doc: &'a mut DocumentMut, key: &str) -> (r: Option<&'a mut Table>)
    ensures
        r is Some <==> document_model(*old(doc)).items.contains_key(key@) && document_model(
            *old(doc),
        ).items[key@] == ItemKind::Table,
        r matches Some(t) ==> table_entries(*t) == document_model(*old(doc)).tables[key@],
        r matches Some(t) ==> document_model(*final(doc)) == (TomlModel {
            items: document_model(*old(doc)).items,
            tables: document_model(*old(doc)).tables.insert(key@, table_entries(*final(t))),
        }),
{
    match doc.get_mut(key) {
        None => None,
        Some(Item::None) => None,
        Some(Item::Value(_)) => None,
        Some(Item::Table(t)) => Some(t),
        Some(Item::ArrayOfTables(_)) => None,
    }
}

/// No fields at all.
pub open spec fn empty_fields() -> Fields {
    Map::empty()
}

/// `InlineTable::new`: an empty inline table.
#[verifier::external_body]
fn new_inline_table() -> (r: InlineTable)
    ensures
        inline_fields(r) == empty_fields(),
{
    InlineTable::new()
}

/// `InlineTable::insert`: puts `value`, made a `Value` by `Value::from`, under
/// `key`, in place of what the key held.
#[verifier::external_body]
fn inline_insert(t: &mut InlineTable, key: &str, value: FieldValue)
    ensures
        inline_fields(*final(t)) == inline_fields(*old(t)).insert(key@, value@),
{
    let value = match value {
        FieldValue::Text(s) => Value::from(s),
        FieldValue::Integer(i) => Value::from(i),
        FieldValue::Boolean(b) => Value::from(b),
    };
    t.insert(key, value);
}

/// `Table::insert`: puts the inline table `entry` under `key`, as a value, in
/// place of what the key held.
#[verifier::external_body]
fn table_insert(t: &mut Table, key: &str, entry: InlineTable)
    ensures
        table_entries(*final(t)) == table_entries(*old(t)).insert(key@, Some(inline_fields(entry))),
{
    t.insert(key, Item::Value(Value::InlineTable(entry)));
}

/// The text of a document (its `Display`). `toml_edit` writes a document as TOML
/// text that parses back to what the document holds: a parsed document is written
/// back as it was read, and what was put in is written as TOML.
#[verifier::external_body]
fn document_text(doc: &DocumentMut) -> (r: String)
    ensures
        toml_parsed(r@) == Some(document_model(*doc)),
{
    doc.to_string()
}

/// The fields of the entry written for a section.
pub open spec fn section_fields(origin: ByteUnit, length: ByteUnit, priority: u32, default: bool) -> Fields {
    let base = empty_fields().insert("origin"@, Scalar::Text(unit_text(origin))).insert(
        "length"@,
        Scalar::Text(unit_text(length)),
    ).insert("priority"@, Scalar::Integer(priority as i64));
    if default {
        base.insert("default"@, Scalar::Boolean(true))
    } else {
        base
    }
}

/// What writing a new section into a configuration document gives: an error
/// where the text does not parse, where it has no `sections` item, or where that
/// item is not a table; otherwise a text that reads as the document with the
/// section's entry put under its name in the `sections` table.
pub open spec fn section_text_outcome(
    text: Seq<char>,
    name: Seq<char>,
    origin: ByteUnit,
    length: ByteUnit,
    priority: u32,
    default: bool,
    r: Result<String, ConfigModificationError>,
) -> bool {
    match toml_parsed(text) {
        None => r matches Err(ConfigModificationError::TomlError(_)),
        Some(m) => if !m.items.contains_key("sections"@) {
            r matches Err(ConfigModificationError::FailedToFind(s)) && s@ == "sections"@
        } else if m.items["sections"@] != ItemKind::Table {
            r matches Err(ConfigModificationError::UnexpectedType(s)) && s@ == "sections"@
        } else {
            r matches Ok(t) && toml_parsed(t@) == Some(
                TomlModel {
                    items: m.items,
                    tables: m.tables.insert(
                        "sections"@,
                        m.tables["sections"@].insert(
                            name,
                            Some(section_fields(origin, length, priority, default)),
                        ),
                    ),
                },
            )
        },
    }
}

/// A section written into a configuration document reads back from the new text
/// with the same origin, length, priority and default, while every other entry of
/// the `sections` table, and every other item, reads as before.
pub proof fn lemma_written_section_reads_back(
    text: Seq<char>,
    name: Seq<char>,
    origin: ByteUnit,
    length: ByteUnit,
    priority: u32,
    default: bool,
    t: String,
)
    requires
        section_text_outcome(text, name, origin, length, priority, default, Ok(t)),
    ensures
        toml_parsed(text) matches Some(m0) && toml_parsed(t@) matches Some(m) && {
            &&& m.items == m0.items
            &&& forall|k: Seq<char>| k != "sections"@ ==> m.tables.contains_key(k) == m0.tables.contains_key(k)
                && m.tables[k] == m0.tables[k]
            &&& m.tables["sections"@].contains_key(name)
            &&& forall|k: Seq<char>| k != name ==> m.tables["sections"@].contains_key(k)
                == m0.tables["sections"@].contains_key(k) && m.tables["sections"@][k]
                == m0.tables["sections"@][k]
            &&& m.tables["sections"@][name] matches Some(f) && {
                &&& f["origin"@] matches Scalar::Text(o) && parse_byte_unit(o) == Some(origin)
                &&& f["length"@] matches Scalar::Text(l) && parse_byte_unit(l) == Some(length)
                &&& f["priority"@] == Scalar::Integer(priority as i64)
                &&& f.contains_key("default"@) <==> default
                &&& default ==> f["default"@] == Scalar::Boolean(true)
            }
        },
{
    lemma_unit_text_round_trip(origin);
    lemma_unit_text_round_trip(length);
    let f = section_fields(origin, length, priority, default);
    reveal_strlit("origin");
    reveal_strlit("length");
    reveal_strlit("priority");
    reveal_strlit("default");
    assert("origin"@[0] != "length"@[0] && "origin"@[0] != "priority"@[0] && "origin"@[0] != "default"@[0]);
    assert("length"@[0] != "priority"@[0] && "length"@[0] != "default"@[0]);
    assert("priority"@[0] != "default"@[0]);
    assert(f["origin"@] == Scalar::Text(unit_text(origin)));
    assert(f["length"@] == Scalar::Text(unit_text(length)));
    assert(f["priority"@] == Scalar::Integer(priority as i64));
}

impl Config {
    /// Adds a section called `name` as [`Config::add_section`] does, then writes it
    /// into `text`, the configuration's document: an inline table with its origin,
    /// length and priority (and `default = true` for a default section) under its
    /// name in the `sections` table. Returns the document's new text, which reads as
    /// the old document with that entry added.
    pub fn add_section_to_text(
        &mut self,
        text: &str,
        name: &str,
        origin: ByteUnit,
        length: ByteUnit,
        priority: u32,
        default: bool,
    ) -> (r: Result<String, ConfigModificationError>)
        requires
            section_names_distinct(old(self).sections@),
            !has_section(old(self).sections@, name@) ==> forall|c: Config|
                #[trigger] extends_by(c, *old(self), name@, Section { origin, length, priority, default })
                    ==> read_units_fit(c),
        ensures
            has_section(old(self).sections@, name@) ==> (r matches Err(
                ConfigModificationError::SectionNameExists(n),
            ) && n@ == name@) && *final(self) == *old(self),
            !has_section(old(self).sections@, name@) ==> {
                &&& extends_by(
                    *final(self),
                    *old(self),
                    name@,
                    Section { origin, length, priority, default },
                )
                &&& match validation_outcome(*final(self)) {
                    Some(p) => r matches Err(ConfigModificationError::Validation(e)) && e@ == p,
                    None => section_text_outcome(text@, name@, origin, length, priority, default, r),
                }
            },
            section_names_distinct(final(self).sections@),
    {
        match self.add_section(name, origin, length, priority, default) {
            Ok(()) => {},
            Err(e) => {
                return Err(e);
            },
        }
        let mut doc = match parse_document(text) {
            Ok(d) => d,
            Err(e) => {
                return Err(ConfigModificationError::TomlError(e));
            },
        };
        match document_item(&doc, "sections") {
            None => {
                return Err(ConfigModificationError::FailedToFind("sections"));
            },
            Some(ItemKind::Table) => {},
            Some(_) => {
                return Err(ConfigModificationError::UnexpectedType("sections"));
            },
        }
        let mut entry = new_inline_table();
        inline_insert(&mut entry, "origin", FieldValue::Text(origin.to_string()));
        inline_insert(&mut entry, "length", FieldValue::Text(length.to_string()));
        inline_insert(&mut entry, "priority", FieldValue::Integer(priority as i64));
        if default {
            inline_insert(&mut entry, "default", FieldValue::Boolean(true));
        }
        proof {
            assert(inline_fields(entry) =~= section_fields(origin, length, priority, default));
        }
        let ghost before = document_model(doc);
        match document_table_mut(&mut doc, "sections") {
            Some(table) => table_insert(table, name, entry),
            None => {
                return Err(ConfigModificationError::UnexpectedType("sections"));
            },
        }
        proof {
            assert(document_model(doc) == (TomlModel {
                items: before.items,
                tables: before.tables.insert(
                    "sections"@,
                    before.tables["sections"@].insert(
                        name@,
                        Some(section_fields(origin, length, priority, default)),
                    ),
                ),
            }));
        }
        Ok(document_text(&doc))
    }
}

} // verus!
