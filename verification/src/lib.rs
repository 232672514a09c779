//! Placement of crates and symbols into memory sections of an embedded target,
//! expressed as a linker script.
pub mod assignment;
pub mod config;
pub mod deps;
pub mod file_error;
pub mod foreign;
pub mod generation;
pub mod init;
pub mod mangling;
pub mod text;
pub mod validation;

use vstd::prelude::*;
use vstd::string::*;

use crate::assignment::{
    assign, assign_outcome_err, assign_outcome_ok, assign_run, with_default, AssignRun,
    AssignmentError,
};
use crate::config::{
    config_valid, lemma_validation_outcome_iff_valid, read_units_fit, section_names_distinct, validation_outcome, Config,
    ConfigLoadError, ConfigValidationError,
};
use crate::deps::{crate_named, find_crate_named, lemma_crate_named_from, Crate, DepTree, DepsError, Inverted};
use crate::file_error::FileError;
use crate::generation::{generate_script, opt_str, script_text};
use crate::mangling::{ManglingDetectionError, ManglingVersion};
use crate::text::{chars_of, push_str, string_from_chars};
use crate::validation::{
    opt_text, problem_symbol, problems_view, validate, validation_problems, BinarySymbol, DebugUnit,
    IgnoreList, Problem, ValidationError, ValidationProblem,
};

pub use crate::generation::ManglingMatches;

verus! {

/// The configuration file looked for when none is given.
pub const DEFAULT_CONFIG_NAME: &'static str = "Memory.toml";

/// The linker script written when no output is given.
pub const DEFAULT_OUTPUT_NAME: &'static str = "memory.x";

/// The ignore list looked for when none is given.
pub const DEFAULT_IGNORELIST_NAME: &'static str = ".crateplace-ignore";

/// The manifest of a project.
pub const CARGO_MANIFEST: &'static str = "Cargo.toml";

/// Everything that can go wrong while placing crates.
#[derive(Debug)]
pub enum CratePlacerError {
    Deps(DepsError),
    TomlParse(toml::de::Error),
    IO { err: std::io::Error, path: String },
    Placement(AssignmentError),
    InvalidPath(String),
    FailedToFindConfig(String),
    NoOutput,
    DepNotFound(String),
    InvalidConfig(ConfigValidationError),
    ManglingDetectionError(ManglingDetectionError),
    ValidationError(ValidationError),
    BuildError,
    NoOutputBinary,
    ConifgLoadError(ConfigLoadError),
    FileError(FileError),
}

/// A file-backed setting: the name of the file looked for by default, the path
/// where it was given or found, and its contents once loaded or given.
#[derive(Clone, Debug)]
pub struct FileConfig<C> {
    pub default_file_name: String,
    pub path: Option<String>,
    pub config: Option<C>,
}

impl<C> FileConfig<C> {
    /// A setting that is looked for under `default_file_name`.
    pub fn new(default_file_name: &str) -> (r: Self)
        ensures
            r.default_file_name@ == default_file_name@,
            r.path is None,
            r.config is None,
    {
        FileConfig { default_file_name: String::from_str(default_file_name), path: None, config: None }
    }

    /// Gives the contents directly.
    pub fn set(&mut self, config: C)
        ensures
            final(self).config == Some(config),
            final(self).path == old(self).path,
            final(self).default_file_name == old(self).default_file_name,
    {
        self.config = Some(config);
    }

    /// Gives the path of the file.
    pub fn set_path(&mut self, path: &str)
        ensures
            final(self).path matches Some(p) && p@ == path@,
            final(self).config == old(self).config,
            final(self).default_file_name == old(self).default_file_name,
    {
        self.path = Some(String::from_str(path));
    }

    /// The path of the file: the one given, else `found` (where the file was found,
    /// which is then kept as the path), else an error naming the default file.
    pub fn resolve_path(&mut self, found: Option<String>) -> (r: Result<String, CratePlacerError>)
        ensures
            final(self).config == old(self).config,
            final(self).default_file_name == old(self).default_file_name,
            final(self).path == (match old(self).path {
                Some(p) => Some(p),
                None => found,
            }),
            match final(self).path {
                Some(p) => r matches Ok(q) && q@ == p@,
                None => r matches Err(CratePlacerError::FailedToFindConfig(n)) && n@
                    == old(self).default_file_name@,
            },
    {
        if self.path.is_none() {
            self.path = found;
        }
        match &self.path {
            Some(p) => Ok(p.clone()),
            None => Err(CratePlacerError::FailedToFindConfig(self.default_file_name.clone())),
        }
    }

    /// The contents, once loaded or given.
    pub fn get(&self) -> (r: Result<&C, CratePlacerError>)
        ensures
            match self.config {
                Some(c) => r == Ok::<&C, CratePlacerError>(&c),
                None => r matches Err(CratePlacerError::FailedToFindConfig(n))
                    && n@ == self.default_file_name@,
            },
    {
        match &self.config {
            Some(c) => Ok(c),
            None => Err(CratePlacerError::FailedToFindConfig(self.default_file_name.clone())),
        }
    }
}

/// The crate placer: where the manifest, the configuration, the output and the
/// ignore list are, scripts to pull in before and after the linker script, and
/// whether the script goes to standard output.
#[derive(Clone, Debug)]
pub struct CratePlacer {
    pub manifest: Option<String>,
    pub config: FileConfig<Config>,
    pub output: Option<String>,
    pub ignorelist: FileConfig<IgnoreList>,
    pub pre_script: Option<String>,
    pub post_script: Option<String>,
    pub stdout: bool,
}

/// A placer with nothing given: the configuration and the ignore list are looked
/// for under their default names.
pub open spec fn fresh_placer(p: CratePlacer) -> bool {
    &&& p.manifest is None
    &&& p.config.default_file_name@ == DEFAULT_CONFIG_NAME@
    &&& p.config.path is None
    &&& p.config.config is None
    &&& p.output is None
    &&& p.ignorelist.default_file_name@ == DEFAULT_IGNORELIST_NAME@
    &&& p.ignorelist.path is None
    &&& p.ignorelist.config is None
    &&& p.pre_script is None
    &&& p.post_script is None
    &&& !p.stdout
}

impl Default for CratePlacer {
    fn default() -> (r: Self)
        ensures
            fresh_placer(r),
    {
        Self::new()
    }
}

impl CratePlacer {
    /// A placer with nothing given.
    pub fn new() -> (r: Self)
        ensures
            fresh_placer(r),
    {
        CratePlacer {
            manifest: None,
            config: FileConfig::new(DEFAULT_CONFIG_NAME),
            output: None,
            stdout: false,
            ignorelist: FileConfig::new(DEFAULT_IGNORELIST_NAME),
            pre_script: None,
            post_script: None,
        }
    }

    /// Whether the linker script goes to standard output instead of a file.
    pub fn stdout(&mut self, stdout: bool)
        ensures
            *final(self) == (CratePlacer { stdout, ..*old(self) }),
    {
        self.stdout = stdout;
    }

    /// The manifest of the project.
    pub fn cargo_manifest(&mut self, manifest: &str) -> (r: &mut Self)
        ensures
            r.manifest matches Some(m) && m@ == manifest@,
            *r == (CratePlacer { manifest: r.manifest, ..*old(self) }),
            *final(self) == *final(r),
    {
        self.manifest = Some(String::from_str(manifest));
        self
    }
}

/// The crates of `before` once `config` is assigned to them (where that succeeds).
pub open spec fn placed_crates(config: Config, before: DepTree) -> Seq<(String, Crate)> {
    match config.crates {
        None => with_default(before.crates@, config.sections@),
        Some(crates) => match assign_run(config.sections@, crates@, before.crates@, 0) {
            AssignRun::Done(st) => with_default(st, config.sections@),
            _ => before.crates@,
        },
    }
}

/// What placing the crates of `before` with the configuration of `cf` gives where
/// it succeeds: the configuration is loaded and valid, and the crates are assigned.
pub open spec fn placed_ok(cf: FileConfig<Config>, before: DepTree, after: DepTree) -> bool {
    cf.config matches Some(c) && config_valid(c) && assign_outcome_ok(c, before, after)
}

/// Whether `e` is the error that placing the crates of `before` with the
/// configuration of `cf` meets: no configuration, an invalid one (with the first
/// problem found), or an assignment that fails.
pub open spec fn placed_err(cf: FileConfig<Config>, before: DepTree, e: CratePlacerError) -> bool {
    match cf.config {
        None => e matches CratePlacerError::FailedToFindConfig(n) && n@ == cf.default_file_name@,
        Some(c) => match validation_outcome(c) {
            Some(p) => e matches CratePlacerError::InvalidConfig(v) && v@ == p,
            None => e matches CratePlacerError::Placement(a) && assign_outcome_err(c, before.crates@, a),
        },
    }
}

/// A character that a regular expression reads as syntax rather than as itself.
pub open spec fn regex_meta(c: char) -> bool {
    c == '\\' || c == '.' || c == '+' || c == '*' || c == '?' || c == '(' || c == ')' || c == '|'
        || c == '[' || c == ']' || c == '{' || c == '}' || c == '^' || c == '$' || c == '#'
        || c == '&' || c == '-' || c == '~'
}

/// `s` as a regular expression that matches exactly `s`: each syntax character
/// behind a backslash.
pub open spec fn regex_escaped(s: Seq<char>) -> Seq<char>
    decreases s.len(),
{
    if s.len() == 0 {
        Seq::empty()
    } else {
        regex_escaped(s.drop_last()) + if regex_meta(s.last()) {
            seq!['\\', s.last()]
        } else {
            seq![s.last()]
        }
    }
}

/// Appends `s` as a regular expression that matches exactly `s`.
fn push_escaped(out: &mut Vec<char>, s: &String)
    ensures
        final(out)@ == old(out)@ + regex_escaped(s@),
{
    let v = chars_of(s.as_str());
    let mut i: usize = 0;
    while i < v.len()
        invariant
            i <= v@.len(),
            v@ == s@,
            out@ == old(out)@ + regex_escaped(v@.subrange(0, i as int)),
        decreases v.len() - i,
    {
        let c = v[i];
        assert(v@.subrange(0, i + 1).drop_last() =~= v@.subrange(0, i as int));
        if c == '\\' || c == '.' || c == '+' || c == '*' || c == '?' || c == '(' || c == ')'
            || c == '|' || c == '[' || c == ']' || c == '{' || c == '}' || c == '^' || c == '$'
            || c == '#' || c == '&' || c == '-' || c == '~' {
            out.push('\\');
        }
        out.push(c);
        i = i + 1;
        assert(out@ =~= old(out)@ + regex_escaped(v@.subrange(0, i as int)));
    }
    assert(v@.subrange(0, v@.len() as int) =~= v@);
}


/// The patterns of an ignore list after blessing `problems`: the patterns it had,
/// then one matching exactly the symbol of each problem that is about a symbol
/// (its regular-expression characters escaped).
pub open spec fn blessed(existing: Seq<Seq<char>>, problems: Seq<Problem>) -> Seq<Seq<char>>
    decreases problems.len(),
{
    if problems.len() == 0 {
        existing
    } else {
        let prev = blessed(existing, problems.drop_last());
        match problem_symbol(problems.last()) {
            Some(n) => prev.push("^"@ + regex_escaped(n) + "$"@),
            None => prev,
        }
    }
}

/// The crate patterns to cover for a mangling scheme: a compiler that mangles in
/// the legacy way may still produce v0 names, so both are covered.
pub fn matches_for_version(v: ManglingVersion) -> (r: ManglingMatches)
    ensures
        r == (match v {
            ManglingVersion::Legacy => ManglingMatches::All,
            ManglingVersion::V0 => ManglingMatches::V0,
        }),
{
    match v {
        ManglingVersion::Legacy => ManglingMatches::All,
        ManglingVersion::V0 => ManglingMatches::V0,
    }
}

impl CratePlacer {
    /// The configuration file.
    pub fn config_file(&mut self, config_file: &str) -> (r: &mut Self)
        ensures
            r.config.path matches Some(p) && p@ == config_file@,
            r.config.config == old(self).config.config,
            r.config.default_file_name == old(self).config.default_file_name,
            *r == (CratePlacer { config: r.config, ..*old(self) }),
            *final(self) == *final(r),
    {
        self.config.set_path(config_file);
        self
    }

    /// The configuration itself.
    pub fn config(&mut self, config: Config) -> (r: &mut Self)
        ensures
            r.config.config == Some(config),
            r.config.path == old(self).config.path,
            r.config.default_file_name == old(self).config.default_file_name,
            *r == (CratePlacer { config: r.config, ..*old(self) }),
            *final(self) == *final(r),
    {
        self.config.set(config);
        self
    }

    /// Where the linker script is written.
    pub fn output(&mut self, output: &str) -> (r: &mut Self)
        ensures
            r.output matches Some(o) && o@ == output@,
            *r == (CratePlacer { output: r.output, ..*old(self) }),
            *final(self) == *final(r),
    {
        self.output = Some(String::from_str(output));
        self
    }

    /// The ignore list file.
    pub fn ignorelist_file(&mut self, ignorelist_file: &str) -> (r: &mut Self)
        ensures
            r.ignorelist.path matches Some(p) && p@ == ignorelist_file@,
            r.ignorelist.config == old(self).ignorelist.config,
            r.ignorelist.default_file_name == old(self).ignorelist.default_file_name,
            *r == (CratePlacer { ignorelist: r.ignorelist, ..*old(self) }),
            *final(self) == *final(r),
    {
        self.ignorelist.set_path(ignorelist_file);
        self
    }

    /// The ignore list itself.
    pub fn ignorelist(&mut self, list: IgnoreList) -> (r: &mut Self)
        ensures
            r.ignorelist.config == Some(list),
            r.ignorelist.path == old(self).ignorelist.path,
            r.ignorelist.default_file_name == old(self).ignorelist.default_file_name,
            *r == (CratePlacer { ignorelist: r.ignorelist, ..*old(self) }),
            *final(self) == *final(r),
    {
        self.ignorelist.set(list);
        self
    }

    /// A linker script to pull in before the generated one.
    pub fn pre_script(&mut self, script: &str) -> (r: &mut Self)
        ensures
            r.pre_script matches Some(p) && p@ == script@,
            *r == (CratePlacer { pre_script: r.pre_script, ..*old(self) }),
            *final(self) == *final(r),
    {
        self.pre_script = Some(String::from_str(script));
        self
    }

    /// A linker script to pull in after the generated one.
    pub fn post_script(&mut self, script: &str) -> (r: &mut Self)
        ensures
            r.post_script matches Some(p) && p@ == script@,
            *r == (CratePlacer { post_script: r.post_script, ..*old(self) }),
            *final(self) == *final(r),
    {
        self.post_script = Some(String::from_str(script));
        self
    }

    /// The crates of `deps` with the sections the configuration assigns them, once
    /// the configuration is found valid.
    pub fn get_assigned_deps(&self, deps: DepTree) -> (r: Result<DepTree, CratePlacerError>)
        requires
            self.config.config matches Some(c) ==> read_units_fit(c) && section_names_distinct(c.sections@),
        ensures
            match r {
                Ok(t) => placed_ok(self.config, deps, t),
                Err(e) => placed_err(self.config, deps, e),
            },
    {
        let config = self.config.get()?;
        proof {
            lemma_validation_outcome_iff_valid(*config);
        }
        match config.validate() {
            Ok(()) => {},
            Err(e) => {
                return Err(CratePlacerError::InvalidConfig(e));
            },
        }
        let mut deps = deps;
        match assign(config, &mut deps) {
            Ok(()) => Ok(deps),
            Err(e) => Err(CratePlacerError::Placement(e)),
        }
    }

    /// The assigned dependency tree as it is to be shown: with or without the
    /// crates that have no section, with every occurrence expanded or not, and
    /// from the root down or from the crate named in `inverted` up.
    pub fn display_tree(
        &self,
        deps: DepTree,
        show_unspecified: bool,
        no_dedupe: bool,
        inverted: Inverted,
    ) -> (r: Result<DepTree, CratePlacerError>)
        requires
            self.config.config matches Some(c) ==> read_units_fit(c) && section_names_distinct(c.sections@),
        ensures
            match r {
                Ok(t) => self.config.config matches Some(c) && config_valid(c) && t.crates@
                    == placed_crates(c, deps) && t.root == deps.root && t.display_unspecified
                    == show_unspecified && t.no_dedupe == no_dedupe && (match inverted {
                    Inverted::Not => t.inverted == deps.inverted,
                    Inverted::Inverted(name) => (crate_named(t.crates@, name@) matches Some(i) && (
                    t.inverted matches Inverted::Inverted(id) && id@ == t.crates@[i].0@)),
                }),
                Err(CratePlacerError::DepNotFound(name)) => inverted matches Inverted::Inverted(n)
                    && n == name && (self.config.config matches Some(c) && config_valid(c)
                    && crate_named(placed_crates(c, deps), name@) is None),
                Err(e) => placed_err(self.config, deps, e),
            },
    {
        let mut deps = self.get_assigned_deps(deps)?;
        deps.no_dedupe(no_dedupe);
        deps.display_unspecified(show_unspecified);
        match inverted {
            Inverted::Not => {},
            Inverted::Inverted(dep) => {
                proof {
                    lemma_crate_named_from(deps.crates@, dep@, 0);
                }
                match find_crate_named(&deps.crates, &dep) {
                    Some(i) => {
                        let id = deps.crates[i].0.clone();
                        deps.inverted(Inverted::Inverted(id));
                    },
                    None => {
                        return Err(CratePlacerError::DepNotFound(dep));
                    },
                }
            },
        }
        Ok(deps)
    }

    /// The linker script for the assigned crates, covering `mangling`, with the
    /// scripts to pull in before and after it.
    pub fn get_linkerscript(&self, deps: DepTree, mangling: ManglingMatches) -> (r: Result<String, CratePlacerError>)
        requires
            self.config.config matches Some(c) ==> read_units_fit(c) && section_names_distinct(c.sections@),
        ensures
            match r {
                Ok(s) => self.config.config matches Some(c) && config_valid(c) && (exists|t: DepTree|
                    placed_ok(self.config, deps, t)) && s@ == script_text(
                    c,
                    placed_crates(c, deps),
                    mangling,
                    opt_text(self.pre_script),
                    opt_text(self.post_script),
                ),
                Err(e) => placed_err(self.config, deps, e),
            },
    {
        let deps = self.get_assigned_deps(deps)?;
        let config = self.config.get()?;
        let pre = match &self.pre_script {
            Some(p) => Some(p.as_str()),
            None => None,
        };
        let post = match &self.post_script {
            Some(p) => Some(p.as_str()),
            None => None,
        };
        assert(opt_str(pre) == opt_text(self.pre_script));
        assert(opt_str(post) == opt_text(self.post_script));
        Ok(generate_script(config, &deps, mangling, pre, post))
    }

    /// Adds to the ignore list a pattern matching exactly the symbol of each
    /// problem that is about a symbol.
    pub fn bless(&mut self, problems: &Vec<ValidationProblem>) -> (r: Result<(), CratePlacerError>)
        ensures
            match old(self).ignorelist.config {
                Some(list) => r is Ok && (final(self).ignorelist.config matches Some(new_list)
                    && new_list@ == blessed(list@, problems_view(problems@)))
                    && *final(self) == (CratePlacer { ignorelist: final(self).ignorelist, ..*old(self) })
                    && final(self).ignorelist.path == old(self).ignorelist.path
                    && final(self).ignorelist.default_file_name == old(self).ignorelist.default_file_name,
                None => r matches Err(CratePlacerError::FailedToFindConfig(n))
                    && n@ == old(self).ignorelist.default_file_name@ && *final(self) == *old(self),
            },
    {
        let ignore_list = self.ignorelist.get()?;
        let mut patterns: Vec<String> = ignore_list.patterns().clone();
        let mut i: usize = 0;
        while i < problems.len()
            invariant
                i <= problems@.len(),
                patterns@.map_values(|p: String| p@) == blessed(
                    ignore_list@,
                    problems_view(problems@).subrange(0, i as int),
                ),
            decreases problems.len() - i,
        {
            let ghost before = patterns@;
            assert(problems_view(problems@).subrange(0, i + 1).drop_last() =~= problems_view(
                problems@,
            ).subrange(0, i as int));
            match problems[i].symbol_name() {
                Some(name) => {
                    let mut pattern: Vec<char> = Vec::new();
                    push_str(&mut pattern, "^");
                    push_escaped(&mut pattern, name);
                    push_str(&mut pattern, "$");
                    let p = string_from_chars(&pattern);
                    patterns.push(p);
                    assert(patterns@.map_values(|p: String| p@) =~= before.map_values(|p: String| p@).push(
                        "^"@ + regex_escaped(name@) + "$"@,
                    ));
                },
                None => {},
            }
            i = i + 1;
        }
        assert(problems_view(problems@).subrange(0, problems@.len() as int) =~= problems_view(problems@));
        let new_list = IgnoreList::new(&patterns);
        self.ignorelist.set(new_list);
        Ok(())
    }

    /// Checks a binary, given by its debug information and its symbol table, against
    /// the crates of `deps` as the configuration assigns them.
    pub fn validate(
        &self,
        deps: DepTree,
        units: &Vec<DebugUnit>,
        symbols: &Vec<BinarySymbol>,
    ) -> (r: Result<Vec<ValidationProblem>, CratePlacerError>)
        requires
            self.config.config matches Some(c) ==> read_units_fit(c) && section_names_distinct(c.sections@),
        ensures
            match r {
                Ok(ps) => self.config.config matches Some(c) && config_valid(c) && (exists|t: DepTree|
                    placed_ok(self.config, deps, t)) && problems_view(ps@) == validation_problems(
                    units@,
                    symbols@,
                    placed_crates(c, deps),
                    c,
                ),
                Err(e) => placed_err(self.config, deps, e),
            },
    {
        let deps = self.get_assigned_deps(deps)?;
        let config = self.config.get()?;
        Ok(validate(units, symbols, &deps, config))
    }
}

} // verus!
