//! Writing the linker script: the memory regions of the configuration, and an
//! output section per configured section that gathers the code and data of the
//! crates and symbol patterns assigned to it.
use vstd::prelude::*;
use vstd::utf8::encode_utf8;

use crate::config::{unit_text, Config, Section, SymPlacement};
use crate::deps::{Crate, DepTree};
use crate::text::{chars_of, dashes_to_underscores, dec_text, push_chars, push_decimal, push_str, string_from_chars, underscored};

verus! {

/// Which mangling schemes the crate patterns of the script cover.
#[derive(Debug, Copy, Clone, PartialEq, Eq, Structural)]
pub enum ManglingMatches {
    Legacy,
    V0,
    All,
}

/// What `str::to_uppercase` makes of a text.
pub uninterp spec fn uppercased(s: Seq<char>) -> Seq<char>;

/// `str::to_uppercase`. The contract only names the result.
#[verifier::external_body]
fn to_uppercase(s: &str) -> (r: String)
    ensures
        r@ == uppercased(s@),
{
    s.to_uppercase()
}

/// `s` without its `-` and `_` characters.
pub open spec fn without_separators(s: Seq<char>) -> Seq<char>
    decreases s.len(),
{
    if s.len() == 0 {
        s
    } else {
        let p = without_separators(s.drop_last());
        if s.last() == '-' || s.last() == '_' {
            p
        } else {
            p.push(s.last())
        }
    }
}

/// The memory region a section is placed in: its name without `-` and `_`, in
/// upper case.
pub open spec fn target_name(name: Seq<char>) -> Seq<char> {
    uppercased(without_separators(name))
}

/// The memory region a section is placed in.
fn section_name_to_target(name: &str) -> (r: String)
    ensures
        r@ == target_name(name@),
{
    let v = chars_of(name);
    let mut out: Vec<char> = Vec::new();
    let mut i: usize = 0;
    while i < v.len()
        invariant
            i <= v@.len(),
            v@ == name@,
            out@ == without_separators(v@.subrange(0, i as int)),
        decreases v.len() - i,
    {
        assert(v@.subrange(0, i + 1).drop_last() =~= v@.subrange(0, i as int));
        let c = v[i];
        if c != '-' && c != '_' {
            out.push(c);
        }
        i = i + 1;
    }
    assert(v@.subrange(0, v@.len() as int) =~= v@);
    let stripped = string_from_chars(&out);
    to_uppercase(stripped.as_str())
}

/// `s` written `n` times.
pub open spec fn repeat(s: Seq<char>, n: nat) -> Seq<char>
    decreases n,
{
    if n == 0 {
        Seq::empty()
    } else {
        repeat(s, (n - 1) as nat) + s
    }
}

/// The texts of `parts` with `sep` between each two.
pub open spec fn join(parts: Seq<Seq<char>>, sep: Seq<char>) -> Seq<char>
    decreases parts.len(),
{
    if parts.len() == 0 {
        Seq::empty()
    } else if parts.len() == 1 {
        parts[0]
    } else {
        join(parts.drop_last(), sep) + sep + parts.last()
    }
}

pub proof fn lemma_join_push(parts: Seq<Seq<char>>, sep: Seq<char>, x: Seq<char>)
    ensures
        join(parts.push(x), sep) == if parts.len() == 0 {
            x
        } else {
            join(parts, sep) + sep + x
        },
{
    assert(parts.push(x).drop_last() =~= parts);
}

/// Texts with each taken as a character sequence.
pub open spec fn texts(v: Seq<Vec<char>>) -> Seq<Seq<char>> {
    v.map_values(|x: Vec<char>| x@)
}

/// Appends `item` to a joined text of `parts`, with `sep` before it unless it is
/// the first.
fn push_joined(
    out: &mut Vec<char>,
    item: &Vec<char>,
    sep: &str,
    first: bool,
    Ghost(parts): Ghost<Seq<Seq<char>>>,
)
    requires
        old(out)@ == join(parts, sep@),
        first == (parts.len() == 0),
    ensures
        final(out)@ == join(parts.push(item@), sep@),
{
    proof {
        lemma_join_push(parts, sep@, item@);
    }
    if !first {
        push_str(out, sep);
    } else {
        assert(old(out)@ =~= Seq::<char>::empty());
    }
    push_chars(out, item);
}

/// The length in bytes of the UTF-8 encoding of `s`, as `str::len` gives it.
pub open spec fn byte_len(s: Seq<char>) -> nat {
    (encode_utf8(s).len() as usize) as nat
}

/// The v0 pattern that matches a crate called `name` after `num` characters of
/// the path before it.
pub open spec fn v0_pattern(name: Seq<char>, num: nat) -> Seq<char> {
    "_R"@ + repeat("[a-zA-Z0-9_]"@, num) + "_"@ + dec_text(byte_len(name)) + name
}

/// The first `n` v0 patterns.
pub open spec fn v0_list(name: Seq<char>, n: nat) -> Seq<Seq<char>>
    decreases n,
{
    if n == 0 {
        Seq::empty()
    } else {
        v0_list(name, (n - 1) as nat).push(v0_pattern(name, (n - 1) as nat))
    }
}

/// The legacy pattern that matches a crate called `name` after `num` characters
/// of the path before it.
pub open spec fn legacy_pattern(name: Seq<char>, num: nat) -> Seq<char> {
    "_ZN"@ + repeat("[a-zA-Z0-9_$]"@, num) + "$"@ + name
}

/// The first `n` legacy patterns after the one for a crate at the root.
pub open spec fn legacy_list(name: Seq<char>, n: nat) -> Seq<Seq<char>>
    decreases n,
{
    if n == 0 {
        seq!["_ZN"@ + dec_text(byte_len(name)) + name]
    } else {
        legacy_list(name, (n - 1) as nat).push(legacy_pattern(name, (n - 1) as nat))
    }
}

/// Appends `s` to `out` `n` times.
fn push_repeated(out: &mut Vec<char>, s: &str, n: usize)
    ensures
        final(out)@ == old(out)@ + repeat(s@, n as nat),
{
    let mut k: usize = 0;
    while k < n
        invariant
            k <= n,
            out@ == old(out)@ + repeat(s@, k as nat),
        decreases n - k,
    {
        push_str(out, s);
        k = k + 1;
        assert(out@ =~= old(out)@ + repeat(s@, k as nat));
    }
}

/// Patterns for the v0-mangled symbols of a crate: 26 of them, for paths of up to
/// 25 characters before the crate's name.
fn v0_matches(name: &str) -> (r: Vec<Vec<char>>)
    ensures
        texts(r@) == v0_list(name@, 26),
{
    let name_chars = chars_of(name);
    let len = name.len();
    let mut res: Vec<Vec<char>> = Vec::new();
    let mut num: usize = 0;
    assert(texts(res@) =~= v0_list(name@, 0));
    while num < 26
        invariant
            num <= 26,
            name_chars@ == name@,
            len == byte_len(name@),
            texts(res@) == v0_list(name@, num as nat),
        decreases 26 - num,
    {
        let mut p: Vec<char> = Vec::new();
        push_str(&mut p, "_R");
        push_repeated(&mut p, "[a-zA-Z0-9_]", num);
        push_str(&mut p, "_");
        push_decimal(&mut p, len as u64);
        push_chars(&mut p, &name_chars);
        assert(p@ =~= v0_pattern(name@, num as nat));
        res.push(p);
        num = num + 1;
        assert(texts(res@) =~= v0_list(name@, num as nat));
    }
    res
}

/// Patterns for the legacy-mangled symbols of a crate: one for the crate at the
/// root, then 32 for paths of up to 31 characters before it.
fn legacy_matches(name: &str) -> (r: Vec<Vec<char>>)
    ensures
        texts(r@) == legacy_list(name@, 32),
{
    let name_chars = chars_of(name);
    let len = name.len();
    let mut first: Vec<char> = Vec::new();
    push_str(&mut first, "_ZN");
    push_decimal(&mut first, len as u64);
    push_chars(&mut first, &name_chars);
    assert(first@ =~= "_ZN"@ + dec_text(byte_len(name@)) + name@);
    let mut res: Vec<Vec<char>> = Vec::new();
    res.push(first);
    assert(texts(res@) =~= legacy_list(name@, 0));
    let mut num: usize = 0;
    while num < 32
        invariant
            num <= 32,
            name_chars@ == name@,
            texts(res@) == legacy_list(name@, num as nat),
        decreases 32 - num,
    {
        let mut p: Vec<char> = Vec::new();
        push_str(&mut p, "_ZN");
        push_repeated(&mut p, "[a-zA-Z0-9_$]", num);
        push_str(&mut p, "$");
        push_chars(&mut p, &name_chars);
        assert(p@ =~= legacy_pattern(name@, num as nat));
        res.push(p);
        num = num + 1;
        assert(texts(res@) =~= legacy_list(name@, num as nat));
    }
    res
}

/// The patterns for a crate, by the schemes to cover (legacy ones first).
pub open spec fn mangling_list(name: Seq<char>, m: ManglingMatches) -> Seq<Seq<char>> {
    match m {
        ManglingMatches::Legacy => legacy_list(name, 32),
        ManglingMatches::V0 => v0_list(name, 26),
        ManglingMatches::All => legacy_list(name, 32) + v0_list(name, 26),
    }
}

/// The patterns for a crate, by the schemes to cover.
fn generate_mangling_matches(name: &str, mangling: ManglingMatches) -> (r: Vec<Vec<char>>)
    ensures
        texts(r@) == mangling_list(name@, mangling),
{
    match mangling {
        ManglingMatches::Legacy => legacy_matches(name),
        ManglingMatches::V0 => v0_matches(name),
        ManglingMatches::All => {
            let mut matches = legacy_matches(name);
            let mut v0 = v0_matches(name);
            let ghost a = matches@;
            let ghost b = v0@;
            matches.append(&mut v0);
            assert(texts(matches@) =~= texts(a) + texts(b));
            matches
        },
    }
}

/// The line of the `MEMORY` block for a section.
pub open spec fn memory_line(name: Seq<char>, s: Section) -> Seq<char> {
    target_name(name) + " : ORIGIN = "@ + unit_text(s.origin) + ", LENGTH = "@ + unit_text(s.length)
}

/// The lines for the first `n` sections.
pub open spec fn memory_lines(secs: Seq<(String, Section)>, n: nat) -> Seq<Seq<char>>
    decreases n,
{
    if n == 0 || n > secs.len() {
        Seq::empty()
    } else {
        memory_lines(secs, (n - 1) as nat).push(memory_line(secs[n - 1].0@, secs[n - 1].1))
    }
}

/// The memory regions of the sections, one per line.
pub open spec fn memory_text(secs: Seq<(String, Section)>) -> Seq<char> {
    join(memory_lines(secs, secs.len()), "\n    "@)
}

/// The memory regions of the sections, one per line.
fn generate_memory(config: &Config) -> (r: Vec<char>)
    ensures
        r@ == memory_text(config.sections@),
{
    let secs = &config.sections;
    let mut out: Vec<char> = Vec::new();
    let mut i: usize = 0;
    while i < secs.len()
        invariant
            i <= secs@.len(),
            secs == &config.sections,
            out@ == join(memory_lines(secs@, i as nat), "\n    "@),
        decreases secs.len() - i,
    {
        let (name, section) = (&secs[i].0, &secs[i].1);
        let target = section_name_to_target(name.as_str());
        let origin = section.origin.to_string();
        let length = section.length.to_string();
        let mut line: Vec<char> = Vec::new();
        push_str(&mut line, target.as_str());
        push_str(&mut line, " : ORIGIN = ");
        push_str(&mut line, origin.as_str());
        push_str(&mut line, ", LENGTH = ");
        push_str(&mut line, length.as_str());
        assert(line@ =~= memory_line(name@, *section));
        push_joined(&mut out, &line, "\n    ", i == 0, Ghost(memory_lines(secs@, i as nat)));
        i = i + 1;
    }
    out
}

/// The input-section patterns for one symbol pattern `m`.
pub open spec fn match_block(m: Seq<char>) -> Seq<char> {
    "*(.text."@ + m + "*)\n*(.text.unlikely."@ + m + "*)\n        *(.rodata."@ + m
        + "*)\n        *(.data.rel.ro."@ + m + "*)\n"@
}

/// The blocks for the first `n` patterns.
pub open spec fn match_blocks(ms: Seq<Seq<char>>, n: nat) -> Seq<Seq<char>>
    decreases n,
{
    if n == 0 || n > ms.len() {
        Seq::empty()
    } else {
        match_blocks(ms, (n - 1) as nat).push(match_block(ms[n - 1]))
    }
}

/// The input-section patterns for a crate called `name` in symbols.
pub open spec fn dep_block(name: Seq<char>, m: ManglingMatches) -> Seq<char> {
    let ms = mangling_list(name, m);
    join(match_blocks(ms, ms.len()), "        "@)
}

/// Whether a crate is assigned to the section called `section`.
pub open spec fn assigned_to(c: Crate, section: Seq<char>) -> bool {
    c.assignment matches Some(a) && a.name@ == section
}

/// The blocks of the crates, among the first `n`, assigned to `section`.
pub open spec fn dep_blocks(crates: Seq<(String, Crate)>, section: Seq<char>, m: ManglingMatches, n: nat) -> Seq<
    Seq<char>,
>
    decreases n,
{
    if n == 0 || n > crates.len() {
        Seq::empty()
    } else {
        let prev = dep_blocks(crates, section, m, (n - 1) as nat);
        let c = crates[n - 1].1;
        if assigned_to(c, section) {
            prev.push(dep_block(underscored(c.name@), m))
        } else {
            prev
        }
    }
}

/// What a section gathers of the crates assigned to it.
pub open spec fn dep_matches_text(section: Seq<char>, crates: Seq<(String, Crate)>, m: ManglingMatches) -> Seq<
    char,
> {
    let bs = dep_blocks(crates, section, m, crates.len());
    if bs.len() == 0 {
        Seq::empty()
    } else {
        join(bs, "        "@) + "        "@
    }
}

/// The input-section patterns for a crate called `name` in symbols.
fn crate_block(name: &str, mangling: ManglingMatches) -> (r: Vec<char>)
    ensures
        r@ == dep_block(name@, mangling),
{
    let ms = generate_mangling_matches(name, mangling);
    let ghost tms = texts(ms@);
    let mut out: Vec<char> = Vec::new();
    let mut j: usize = 0;
    while j < ms.len()
        invariant
            j <= ms@.len(),
            tms == texts(ms@),
            tms == mangling_list(name@, mangling),
            out@ == join(match_blocks(tms, j as nat), "        "@),
        decreases ms.len() - j,
    {
        let m = &ms[j];
        let mut block: Vec<char> = Vec::new();
        push_str(&mut block, "*(.text.");
        push_chars(&mut block, m);
        push_str(&mut block, "*)\n*(.text.unlikely.");
        push_chars(&mut block, m);
        push_str(&mut block, "*)\n        *(.rodata.");
        push_chars(&mut block, m);
        push_str(&mut block, "*)\n        *(.data.rel.ro.");
        push_chars(&mut block, m);
        push_str(&mut block, "*)\n");
        assert(tms[j as int] == m@);
        assert(block@ =~= match_block(tms[j as int]));
        push_joined(&mut out, &block, "        ", j == 0, Ghost(match_blocks(tms, j as nat)));
        j = j + 1;
    }
    out
}

/// What the section called `section_name` gathers of the crates assigned to it.
fn generate_dep_matches(section_name: &String, deps: &DepTree, mangling: ManglingMatches) -> (r: Vec<char>)
    ensures
        r@ == dep_matches_text(section_name@, deps.crates@, mangling),
{
    let crates = &deps.crates;
    let mut out: Vec<char> = Vec::new();
    let mut any = false;
    let mut i: usize = 0;
    while i < crates.len()
        invariant
            i <= crates@.len(),
            crates == &deps.crates,
            out@ == join(dep_blocks(crates@, section_name@, mangling, i as nat), "        "@),
            any == (dep_blocks(crates@, section_name@, mangling, i as nat).len() > 0),
        decreases crates.len() - i,
    {
        let dep = &crates[i].1;
        let assigned = match &dep.assignment {
            Some(a) => a.name == *section_name,
            None => false,
        };
        if assigned {
            let name = string_from_chars(&dashes_to_underscores(&dep.name));
            let block = crate_block(name.as_str(), mangling);
            push_joined(
                &mut out,
                &block,
                "        ",
                !any,
                Ghost(dep_blocks(crates@, section_name@, mangling, i as nat)),
            );
            any = true;
        }
        i = i + 1;
    }
    if any {
        push_str(&mut out, "        ");
        out
    } else {
        Vec::new()
    }
}

/// The input-section patterns for a symbol pattern `glob`, by the kinds of
/// section it places.
pub open spec fn symbol_text(glob: Seq<char>, p: SymPlacement) -> Seq<char> {
    (if p.symbol_types.text {
        "        *(.text."@ + glob + ")\n"@
    } else {
        Seq::empty()
    }) + (if p.symbol_types.rodata {
        "        *(.rodata."@ + glob + ")\n"@
    } else {
        Seq::empty()
    }) + (if p.symbol_types.datarel {
        "        *(.data.rel."@ + glob + ")\n"@
    } else {
        Seq::empty()
    })
}

/// The texts of the symbol patterns, among the first `n`, placed in `section`.
pub open spec fn symbol_texts(syms: Seq<(String, SymPlacement)>, section: Seq<char>, n: nat) -> Seq<Seq<char>>
    decreases n,
{
    if n == 0 || n > syms.len() {
        Seq::empty()
    } else {
        let prev = symbol_texts(syms, section, (n - 1) as nat);
        if syms[n - 1].1.section@ == section {
            prev.push(symbol_text(syms[n - 1].0@, syms[n - 1].1))
        } else {
            prev
        }
    }
}

/// What a section gathers of the symbol patterns placed in it; `None` where no
/// pattern is.
pub open spec fn symbol_matches_text(section: Seq<char>, config: Config) -> Option<Seq<char>> {
    match config.symbols {
        None => None,
        Some(syms) => {
            let ts = symbol_texts(syms@, section, syms@.len());
            if ts.len() == 0 {
                None
            } else {
                Some(join(ts, "        "@) + "        "@)
            }
        },
    }
}

/// What the section called `section_name` gathers of the symbol patterns placed
/// in it.
fn generate_symbol_matches(section_name: &String, config: &Config) -> (r: Option<Vec<char>>)
    ensures
        match r {
            Some(v) => symbol_matches_text(section_name@, *config) == Some(v@),
            None => symbol_matches_text(section_name@, *config) is None,
        },
{
    let symbols = match &config.symbols {
        Some(symbols) => symbols,
        None => {
            return None;
        },
    };
    let mut out: Vec<char> = Vec::new();
    let mut any = false;
    let mut i: usize = 0;
    while i < symbols.len()
        invariant
            i <= symbols@.len(),
            config.symbols == Some(*symbols),
            out@ == join(symbol_texts(symbols@, section_name@, i as nat), "        "@),
            any == (symbol_texts(symbols@, section_name@, i as nat).len() > 0),
        decreases symbols.len() - i,
    {
        let (glob, symbol) = (&symbols[i].0, &symbols[i].1);
        if symbol.section == *section_name {
            let mut res: Vec<char> = Vec::new();
            if symbol.symbol_types.text {
                push_str(&mut res, "        *(.text.");
                push_str(&mut res, glob.as_str());
                push_str(&mut res, ")\n");
            }
            let ghost after_text = res@;
            if symbol.symbol_types.rodata {
                push_str(&mut res, "        *(.rodata.");
                push_str(&mut res, glob.as_str());
                push_str(&mut res, ")\n");
            }
            let ghost after_rodata = res@;
            if symbol.symbol_types.datarel {
                push_str(&mut res, "        *(.data.rel.");
                push_str(&mut res, glob.as_str());
                push_str(&mut res, ")\n");
            }
            assert(res@ =~= symbol_text(glob@, *symbol));
            push_joined(
                &mut out,
                &res,
                "        ",
                !any,
                Ghost(symbol_texts(symbols@, section_name@, i as nat)),
            );
            any = true;
        }
        i = i + 1;
    }
    if any {
        push_str(&mut out, "        ");
        Some(out)
    } else {
        None
    }
}

/// The output section for the crates assigned to section `name`, given what it
/// gathers of them.
pub open spec fn crate_section(name: Seq<char>, dm: Seq<char>) -> Seq<char> {
    "."@ + name + " : {          \n        "@ + dm + ". = ALIGN(4);\n    } > "@ + target_name(name) + "\n"@
}

/// The crate output sections of the first `n` sections.
pub open spec fn crate_sections_list(
    secs: Seq<(String, Section)>,
    crates: Seq<(String, Crate)>,
    m: ManglingMatches,
    n: nat,
) -> Seq<Seq<char>>
    decreases n,
{
    if n == 0 || n > secs.len() {
        Seq::empty()
    } else {
        let name = secs[n - 1].0@;
        crate_sections_list(secs, crates, m, (n - 1) as nat).push(
            crate_section(name, dep_matches_text(name, crates, m)),
        )
    }
}

/// Output sections, each on a line of its own after a line break.
pub open spec fn sections_block(items: Seq<Seq<char>>) -> Seq<char> {
    if items.len() == 0 {
        Seq::empty()
    } else {
        "\n    "@ + join(items, "\n    "@)
    }
}

/// The output sections for the crates, one per configured section.
pub open spec fn crate_sections_text(config: Config, crates: Seq<(String, Crate)>, m: ManglingMatches) -> Seq<char> {
    sections_block(crate_sections_list(config.sections@, crates, m, config.sections@.len()))
}

/// The output sections for the crates, one per configured section.
fn generate_crate_sections(config: &Config, deps: &DepTree, mangling: ManglingMatches) -> (r: Vec<char>)
    ensures
        r@ == crate_sections_text(*config, deps.crates@, mangling),
{
    let secs = &config.sections;
    let mut out: Vec<char> = Vec::new();
    let mut i: usize = 0;
    while i < secs.len()
        invariant
            i <= secs@.len(),
            secs == &config.sections,
            out@ == join(crate_sections_list(secs@, deps.crates@, mangling, i as nat), "\n    "@),
        decreases secs.len() - i,
    {
        let section_name = &secs[i].0;
        let dep_matches = generate_dep_matches(section_name, deps, mangling);
        let target = section_name_to_target(section_name.as_str());
        let mut item: Vec<char> = Vec::new();
        push_str(&mut item, ".");
        push_str(&mut item, section_name.as_str());
        push_str(&mut item, " : {          \n        ");
        push_chars(&mut item, &dep_matches);
        push_str(&mut item, ". = ALIGN(4);\n    } > ");
        push_str(&mut item, target.as_str());
        push_str(&mut item, "\n");
        assert(item@ =~= crate_section(
            section_name@,
            dep_matches_text(section_name@, deps.crates@, mangling),
        ));
        push_joined(
            &mut out,
            &item,
            "\n    ",
            i == 0,
            Ghost(crate_sections_list(secs@, deps.crates@, mangling, i as nat)),
        );
        i = i + 1;
    }
    if i > 0 {
        let mut res: Vec<char> = Vec::new();
        push_str(&mut res, "\n    ");
        push_chars(&mut res, &out);
        res
    } else {
        Vec::new()
    }
}

/// The output section for the symbol patterns placed in section `name`, given
/// what it gathers of them.
pub open spec fn user_section(name: Seq<char>, sm: Seq<char>) -> Seq<char> {
    "."@ + name + " : {          \n"@ + sm + ". = ALIGN(4);\n    } > "@ + target_name(name) + "\n"@
}

/// The symbol-pattern output sections of the first `n` sections, for those that
/// have patterns placed in them.
pub open spec fn user_sections_list(config: Config, n: nat) -> Seq<Seq<char>>
    decreases n,
{
    if n == 0 || n > config.sections@.len() {
        Seq::empty()
    } else {
        let prev = user_sections_list(config, (n - 1) as nat);
        let name = config.sections@[n - 1].0@;
        match symbol_matches_text(name, config) {
            Some(sm) => prev.push(user_section(name, sm)),
            None => prev,
        }
    }
}

/// The output sections for the symbol patterns.
pub open spec fn user_sections_text(config: Config) -> Seq<char> {
    sections_block(user_sections_list(config, config.sections@.len()))
}

/// The output sections for the symbol patterns.
fn generate_user_sections(config: &Config) -> (r: Vec<char>)
    ensures
        r@ == user_sections_text(*config),
{
    let secs = &config.sections;
    let mut out: Vec<char> = Vec::new();
    let mut any = false;
    let mut i: usize = 0;
    while i < secs.len()
        invariant
            i <= secs@.len(),
            secs == &config.sections,
            out@ == join(user_sections_list(*config, i as nat), "\n    "@),
            any == (user_sections_list(*config, i as nat).len() > 0),
        decreases secs.len() - i,
    {
        let section_name = &secs[i].0;
        match generate_symbol_matches(section_name, config) {
            Some(symbol_matches) => {
                let target = section_name_to_target(section_name.as_str());
                let mut item: Vec<char> = Vec::new();
                push_str(&mut item, ".");
                push_str(&mut item, section_name.as_str());
                push_str(&mut item, " : {          \n");
                push_chars(&mut item, &symbol_matches);
                push_str(&mut item, ". = ALIGN(4);\n    } > ");
                push_str(&mut item, target.as_str());
                push_str(&mut item, "\n");
                assert(item@ =~= user_section(section_name@, symbol_matches@));
                push_joined(&mut out, &item, "\n    ", !any, Ghost(user_sections_list(*config, i as nat)));
                any = true;
            },
            None => {},
        }
        i = i + 1;
    }
    if any {
        let mut res: Vec<char> = Vec::new();
        push_str(&mut res, "\n    ");
        push_chars(&mut res, &out);
        res
    } else {
        Vec::new()
    }
}

/// An optional text taken as a character sequence.
pub open spec fn opt_str(o: Option<&str>) -> Option<Seq<char>> {
    match o {
        Some(s) => Some(s@),
        None => None,
    }
}

/// The linker script: an optional `INCLUDE` first, the `MEMORY` block with the RAM
/// and a region per section, the output sections for the symbol patterns and then
/// for the crates, to be inserted after `.text`, and an optional `INCLUDE` last.
pub open spec fn script_text(
    config: Config,
    crates: Seq<(String, Crate)>,
    m: ManglingMatches,
    pre: Option<Seq<char>>,
    post: Option<Seq<char>>,
) -> Seq<char> {
    let pre_text = match pre {
        Some(p) => "INCLUDE "@ + p + "\n"@,
        None => Seq::empty(),
    };
    let post_text = match post {
        Some(p) => "\nINCLUDE "@ + p,
        None => Seq::empty(),
    };
    pre_text + "\nMEMORY {\n    RAM : ORIGIN = "@ + unit_text(config.ram.origin) + ", LENGTH = "@
        + unit_text(config.ram.length) + "\n    "@ + memory_text(config.sections@)
        + "\n}\n\nSECTIONS {"@ + user_sections_text(config) + crate_sections_text(config, crates, m)
        + "} INSERT AFTER .text\n"@ + post_text + "\n"@
}

/// Writes the linker script for a configuration and the crates assigned to its
/// sections, covering the given mangling schemes, with optional scripts to pull in
/// before and after it.
pub fn generate_script(
    config: &Config,
    deps: &DepTree,
    mangling: ManglingMatches,
    pre: Option<&str>,
    post: Option<&str>,
) -> (r: String)
    ensures
        r@ == script_text(*config, deps.crates@, mangling, opt_str(pre), opt_str(post)),
{
    let memory = generate_memory(config);
    let crate_sections = generate_crate_sections(config, deps, mangling);
    let user_sections = generate_user_sections(config);
    let ram_origin = config.ram.origin.to_string();
    let ram_len = config.ram.length.to_string();
    let mut out: Vec<char> = Vec::new();
    match pre {
        Some(p) => {
            push_str(&mut out, "INCLUDE ");
            push_str(&mut out, p);
            push_str(&mut out, "\n");
        },
        None => {},
    }
    let ghost pre_part = out@;
    push_str(&mut out, "\nMEMORY {\n    RAM : ORIGIN = ");
    push_str(&mut out, ram_origin.as_str());
    push_str(&mut out, ", LENGTH = ");
    push_str(&mut out, ram_len.as_str());
    push_str(&mut out, "\n    ");
    push_chars(&mut out, &memory);
    push_str(&mut out, "\n}\n\nSECTIONS {");
    push_chars(&mut out, &user_sections);
    push_chars(&mut out, &crate_sections);
    push_str(&mut out, "} INSERT AFTER .text\n");
    let ghost body_part = out@;
    match post {
        Some(p) => {
            push_str(&mut out, "\nINCLUDE ");
            push_str(&mut out, p);
        },
        None => {},
    }
    push_str(&mut out, "\n");
    assert(out@ =~= script_text(*config, deps.crates@, mangling, opt_str(pre), opt_str(post)));
    string_from_chars(&out)
}

/// `x` stands in `t` as a contiguous part.
pub open spec fn occurs_in(x: Seq<char>, t: Seq<char>) -> bool {
    exists|j: int| 0 <= j && j + x.len() <= t.len() && #[trigger] t.subrange(j, j + x.len()) == x
}

proof fn lemma_occurs_at(x: Seq<char>, t: Seq<char>, j: int)
    requires
        0 <= j,
        j + x.len() <= t.len(),
        t.subrange(j, j + x.len()) == x,
    ensures
        occurs_in(x, t),
{
}

proof fn lemma_occurs_trans(x: Seq<char>, y: Seq<char>, t: Seq<char>)
    requires
        occurs_in(x, y),
        occurs_in(y, t),
    ensures
        occurs_in(x, t),
{
    let j1 = choose|j: int| 0 <= j && j + x.len() <= y.len() && #[trigger] y.subrange(j, j + x.len()) == x;
    let j2 = choose|j: int| 0 <= j && j + y.len() <= t.len() && #[trigger] t.subrange(j, j + y.len()) == y;
    assert(t.subrange(j2 + j1, j2 + j1 + x.len()) =~= y.subrange(j1, j1 + x.len()));
    lemma_occurs_at(x, t, j2 + j1);
}

proof fn lemma_occurs_in_parts(a: Seq<char>, b: Seq<char>, c: Seq<char>)
    ensures
        occurs_in(a, a + b + c),
        occurs_in(b, a + b + c),
        occurs_in(c, a + b + c),
{
    let t = a + b + c;
    let la = a.len() as int;
    let lb = b.len() as int;
    let lc = c.len() as int;
    assert(t.subrange(0, la) =~= a);
    assert(t.subrange(la, la + lb) =~= b);
    assert(t.subrange(la + lb, la + lb + lc) =~= c);
    lemma_occurs_at(a, t, 0);
    lemma_occurs_at(b, t, la);
    lemma_occurs_at(c, t, la + lb);
}

proof fn lemma_join_has_part(parts: Seq<Seq<char>>, sep: Seq<char>, k: int)
    requires
        0 <= k < parts.len(),
    ensures
        occurs_in(parts[k], join(parts, sep)),
    decreases parts.len(),
{
    if parts.len() == 1 {
        assert(join(parts, sep).subrange(0, parts[0].len() as int) =~= parts[0]);
        lemma_occurs_at(parts[0], join(parts, sep), 0);
    } else {
        let front = join(parts.drop_last(), sep);
        lemma_occurs_in_parts(front + sep, parts.last(), Seq::empty());
        assert(front + sep + parts.last() + Seq::<char>::empty() =~= join(parts, sep));
        if k == parts.len() - 1 {
        } else {
            lemma_join_has_part(parts.drop_last(), sep, k);
            assert(parts.drop_last()[k] == parts[k]);
            lemma_occurs_in_parts(front, sep, parts.last());
            lemma_occurs_trans(parts[k], front, join(parts, sep));
        }
    }
}

proof fn lemma_symbol_texts_have(syms: Seq<(String, SymPlacement)>, section: Seq<char>, n: nat, i: int)
    requires
        0 <= i < n <= syms.len(),
        syms[i].1.section@ == section,
    ensures
        symbol_texts(syms, section, n).contains(symbol_text(syms[i].0@, syms[i].1)),
    decreases n,
{
    let prev = symbol_texts(syms, section, (n - 1) as nat);
    let cur = symbol_texts(syms, section, n);
    if i < n - 1 {
        lemma_symbol_texts_have(syms, section, (n - 1) as nat, i);
        let j = choose|j: int| 0 <= j < prev.len() && prev[j] == symbol_text(syms[i].0@, syms[i].1);
        if syms[n - 1].1.section@ == section {
            assert(cur[j] == prev[j]);
        }
    } else {
        assert(cur[prev.len() as int] == symbol_text(syms[i].0@, syms[i].1));
    }
}

proof fn lemma_symbol_texts_remove(
    v1: Seq<(String, SymPlacement)>,
    v2: Seq<(String, SymPlacement)>,
    section: Seq<char>,
    i: int,
    n: nat,
)
    requires
        0 <= i < v1.len(),
        v2 == v1.remove(i),
        v1[i].1.section@ != section,
        n <= v1.len(),
    ensures
        symbol_texts(v1, section, n) == if n <= i {
            symbol_texts(v2, section, n)
        } else {
            symbol_texts(v2, section, (n - 1) as nat)
        },
    decreases n,
{
    if n > 0 {
        lemma_symbol_texts_remove(v1, v2, section, i, (n - 1) as nat);
        if n - 1 < i {
            assert(v1[n - 1] == v2[n - 1]);
        } else if n - 1 > i {
            assert(v1[n - 1] == v2[n - 2]);
        }
    }
}

/// A section's output section gathers no symbol pattern placed elsewhere: taking
/// a pattern that is placed in another section out of the configuration leaves
/// what the section gathers unchanged.
pub proof fn lemma_symbol_matches_ignore_other_sections(c1: Config, c2: Config, section: Seq<char>, i: int)
    requires
        c1.symbols is Some,
        c2.symbols is Some,
        0 <= i < c1.symbols->0@.len(),
        c2.symbols->0@ == c1.symbols->0@.remove(i),
        c1.symbols->0@[i].1.section@ != section,
    ensures
        symbol_matches_text(section, c1) == symbol_matches_text(section, c2),
{
    let v1 = c1.symbols->0@;
    let v2 = c2.symbols->0@;
    lemma_symbol_texts_remove(v1, v2, section, i, v1.len());
}

/// Each symbol pattern is gathered by the output section of the section it is
/// placed in, with a line for each kind of input section it places: its text, its
/// read-only data and its relocated data.
pub proof fn lemma_pattern_lines_in_its_section(config: Config, i: int)
    requires
        config.symbols is Some,
        0 <= i < config.symbols->0@.len(),
    ensures
        ({
            let glob = config.symbols->0@[i].0@;
            let p = config.symbols->0@[i].1;
            symbol_matches_text(p.section@, config) matches Some(t) && (p.symbol_types.text ==> occurs_in(
                "        *(.text."@ + glob + ")\n"@,
                t,
            )) && (p.symbol_types.rodata ==> occurs_in("        *(.rodata."@ + glob + ")\n"@, t)) && (
            p.symbol_types.datarel ==> occurs_in("        *(.data.rel."@ + glob + ")\n"@, t))
        }),
{
    let syms = config.symbols->0@;
    let glob = syms[i].0@;
    let p = syms[i].1;
    let section = p.section@;
    let ts = symbol_texts(syms, section, syms.len());
    lemma_symbol_texts_have(syms, section, syms.len(), i);
    let k = choose|k: int| 0 <= k < ts.len() && ts[k] == symbol_text(glob, p);
    let t = join(ts, "        "@) + "        "@;
    lemma_join_has_part(ts, "        "@, k);
    lemma_occurs_in_parts(join(ts, "        "@), "        "@, Seq::empty());
    assert(join(ts, "        "@) + "        "@ + Seq::<char>::empty() =~= t);
    lemma_occurs_trans(ts[k], join(ts, "        "@), t);
    let a = if p.symbol_types.text {
        "        *(.text."@ + glob + ")\n"@
    } else {
        Seq::empty()
    };
    let b = if p.symbol_types.rodata {
        "        *(.rodata."@ + glob + ")\n"@
    } else {
        Seq::empty()
    };
    let c = if p.symbol_types.datarel {
        "        *(.data.rel."@ + glob + ")\n"@
    } else {
        Seq::empty()
    };
    assert(symbol_text(glob, p) == a + b + c);
    lemma_occurs_in_parts(a, b, c);
    lemma_occurs_trans(a, ts[k], t);
    lemma_occurs_trans(b, ts[k], t);
    lemma_occurs_trans(c, ts[k], t);
}

/// Every crate assigned to a section has the input-section patterns of its
/// symbols gathered in that section, and a section gathers the patterns of no
/// other crate.
pub proof fn lemma_dep_blocks_are_assigned_crates(
    crates: Seq<(String, Crate)>,
    section: Seq<char>,
    m: ManglingMatches,
    n: nat,
)
    requires
        n <= crates.len(),
    ensures
        forall|k: int|
            0 <= k < n && assigned_to(#[trigger] crates[k].1, section) ==> dep_blocks(
                crates,
                section,
                m,
                n,
            ).contains(dep_block(underscored(crates[k].1.name@), m)),
        forall|b: Seq<char>|
            dep_blocks(crates, section, m, n).contains(b) ==> exists|k: int|
                0 <= k < n && assigned_to(#[trigger] crates[k].1, section) && b == dep_block(
                    underscored(crates[k].1.name@),
                    m,
                ),
    decreases n,
{
    if n > 0 {
        lemma_dep_blocks_are_assigned_crates(crates, section, m, (n - 1) as nat);
        let prev = dep_blocks(crates, section, m, (n - 1) as nat);
        let cur = dep_blocks(crates, section, m, n);
        let c = crates[n - 1].1;
        if assigned_to(c, section) {
            let x = dep_block(underscored(c.name@), m);
            assert(cur == prev.push(x));
            assert forall|k: int|
                0 <= k < n && assigned_to(#[trigger] crates[k].1, section) implies cur.contains(
                dep_block(underscored(crates[k].1.name@), m),
            ) by {
                if k < n - 1 {
                    let y = dep_block(underscored(crates[k].1.name@), m);
                    let j = choose|j: int| 0 <= j < prev.len() && prev[j] == y;
                    assert(cur[j] == y);
                } else {
                    assert(cur[prev.len() as int] == x);
                }
            }
            assert forall|b: Seq<char>| cur.contains(b) implies exists|k: int|
                0 <= k < n && assigned_to(#[trigger] crates[k].1, section) && b == dep_block(
                    underscored(crates[k].1.name@),
                    m,
                ) by {
                let j = choose|j: int| 0 <= j < cur.len() && cur[j] == b;
                if j < prev.len() {
                    assert(prev[j] == b);
                    assert(prev.contains(b));
                } else {
                    assert(b == x);
                    assert(assigned_to(crates[n - 1].1, section));
                }
            }
        }
    }
}

/// Every crate assigned to a section of the configuration has the patterns of
/// its symbols gathered in that section's output section of the linker script.
pub proof fn lemma_script_places_assigned_crates(
    config: Config,
    crates: Seq<(String, Crate)>,
    m: ManglingMatches,
    j: int,
    k: int,
)
    requires
        0 <= j < config.sections@.len(),
        0 <= k < crates.len(),
        assigned_to(crates[k].1, config.sections@[j].0@),
    ensures
        crate_sections_list(config.sections@, crates, m, config.sections@.len())[j] == crate_section(
            config.sections@[j].0@,
            dep_matches_text(config.sections@[j].0@, crates, m),
        ),
        dep_blocks(crates, config.sections@[j].0@, m, crates.len()).contains(
            dep_block(underscored(crates[k].1.name@), m),
        ),
{
    lemma_dep_blocks_are_assigned_crates(crates, config.sections@[j].0@, m, crates.len());
    lemma_crate_sections_list(config.sections@, crates, m, config.sections@.len());
}

pub proof fn lemma_crate_sections_list(
    secs: Seq<(String, Section)>,
    crates: Seq<(String, Crate)>,
    m: ManglingMatches,
    n: nat,
)
    requires
        n <= secs.len(),
    ensures
        crate_sections_list(secs, crates, m, n).len() == n,
        forall|j: int|
            0 <= j < n ==> #[trigger] crate_sections_list(secs, crates, m, n)[j] == crate_section(
                secs[j].0@,
                dep_matches_text(secs[j].0@, crates, m),
            ),
    decreases n,
{
    if n > 0 {
        lemma_crate_sections_list(secs, crates, m, (n - 1) as nat);
    }
}

} // verus!
