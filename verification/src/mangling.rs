//! Symbol mangling schemes of rustc, told apart by the prefix of a mangled name,
//! and read off the LLVM IR that rustc emits for a small test program.
use vstd::prelude::*;

use crate::text::{
    chars_of, find_chars, find_from, has_prefix, lemma_find_from, starts_with, string_from_chars,
    sub_chars,
};

verus! {

/// Errors when finding out which mangling scheme rustc uses.
#[derive(Debug)]
pub enum ManglingDetectionError {
    NoRustc,
    RustcError(std::io::Error),
    NoRustcIO,
    UnrecognizedMangling(String),
    LlvmIrParseError,
}

/// A mangling scheme of rustc.
#[derive(Copy, Clone, Debug, PartialEq, Eq, Structural)]
pub enum ManglingVersion {
    Legacy,
    V0,
}

/// The scheme a mangled name is written in, by its prefix.
pub open spec fn mangling_of(s: Seq<char>) -> Option<ManglingVersion> {
    if starts_with(s, "_R"@) {
        Some(ManglingVersion::V0)
    } else if starts_with(s, "_ZN"@) {
        Some(ManglingVersion::Legacy)
    } else {
        None
    }
}

/// The name of a scheme as shown to users.
pub open spec fn mangling_name(v: ManglingVersion) -> Seq<char> {
    match v {
        ManglingVersion::Legacy => "legacy"@,
        ManglingVersion::V0 => "v0"@,
    }
}

impl ManglingVersion {
    /// The scheme of a mangled name: `_R` is v0, `_ZN` is legacy.
    pub fn from_mangling_string_prefix(string: &str) -> (r: Option<Self>)
        ensures
            r == mangling_of(string@),
    {
        let v = chars_of(string);
        Self::from_prefix_chars(&v)
    }

    /// The scheme of a mangled name given as characters.
    pub fn from_prefix_chars(v: &Vec<char>) -> (r: Option<Self>)
        ensures
            r == mangling_of(v@),
    {
        if has_prefix(v, "_R") {
            Some(Self::V0)
        } else if has_prefix(v, "_ZN") {
            Some(Self::Legacy)
        } else {
            None
        }
    }

    /// The name of the scheme (`legacy` or `v0`).
    pub fn to_string(&self) -> (r: String)
        ensures
            r@ == mangling_name(*self),
    {
        match self {
            ManglingVersion::Legacy => String::from_str("legacy"),
            ManglingVersion::V0 => String::from_str("v0"),
        }
    }
}

/// What the LLVM IR of the test program tells about the mangling scheme.
pub enum IrMangling {
    Found(ManglingVersion),
    Unrecognized(Seq<char>),
    Unparsable,
}

/// End of the line that starts at `from`.
pub open spec fn line_end(s: Seq<char>, from: int) -> int {
    match find_from(s, seq!['\n'], from) {
        Some(i) => i,
        None => s.len() as int,
    }
}

/// The first line, from position `from` on, that holds both `define` and `test`.
pub open spec fn defining_line_from(s: Seq<char>, from: int) -> Option<(int, int)>
    decreases s.len() + 1 - from,
{
    if from < 0 || from > s.len() {
        None
    } else {
        let e = line_end(s, from);
        let line = s.subrange(from, e);
        if e < from || e > s.len() {
            None
        } else if find_from(line, "define"@, 0) is Some && find_from(line, "test"@, 0) is Some {
            Some((from, e))
        } else if e >= s.len() {
            None
        } else {
            defining_line_from(s, e + 1)
        }
    }
}

/// Reads the mangling scheme off the IR: the first line that holds `define` and
/// `test`; in it, what follows the first `@` up to the next `test` is the mangled
/// prefix.
pub open spec fn ir_mangling(s: Seq<char>) -> IrMangling {
    match defining_line_from(s, 0) {
        None => IrMangling::Unparsable,
        Some((b, e)) => {
            let line = s.subrange(b, e);
            match find_from(line, seq!['@'], 0) {
                None => IrMangling::Unparsable,
                Some(at) => {
                    let rest = line.subrange(at + 1, line.len() as int);
                    match find_from(rest, "test"@, 0) {
                        None => IrMangling::Unparsable,
                        Some(t) => {
                            let m = rest.subrange(0, t);
                            match mangling_of(m) {
                                Some(v) => IrMangling::Found(v),
                                None => IrMangling::Unrecognized(m),
                            }
                        },
                    }
                },
            }
        },
    }
}

/// Finds the mangling scheme in the LLVM IR that rustc printed for the test program.
pub fn mangling_from_llvm_ir(ir: &str) -> (r: Result<ManglingVersion, ManglingDetectionError>)
    ensures
        match ir_mangling(ir@) {
            IrMangling::Found(v) => r matches Ok(x) && x == v,
            IrMangling::Unrecognized(m) => r matches Err(ManglingDetectionError::UnrecognizedMangling(x))
                && x@ == m,
            IrMangling::Unparsable => r matches Err(ManglingDetectionError::LlvmIrParseError),
        },
{
    let s = chars_of(ir);
    let newline = chars_of("\n");
    let define = chars_of("define");
    let test = chars_of("test");
    let at_sign = chars_of("@");
    proof {
        reveal_strlit("\n");
        reveal_strlit("@");
        assert(newline@ =~= seq!['\n']);
        assert(at_sign@ =~= seq!['@']);
    }
    let n = s.len();
    let mut from: usize = 0;
    let found: Option<(usize, usize)>;
    loop
        invariant
            n == s@.len(),
            from <= n,
            newline@ == seq!['\n'],
            define@ == "define"@,
            test@ == "test"@,
            defining_line_from(s@, 0) == defining_line_from(s@, from as int),
        ensures
            match found {
                Some((b, e)) => defining_line_from(s@, 0) == Some((b as int, e as int)) && b <= e
                    <= n,
                None => defining_line_from(s@, 0) is None,
            },
        decreases n + 1 - from,
    {
        proof {
            lemma_find_from(s@, seq!['\n'], from as int);
        }
        let e = match find_chars(&s, &newline, from) {
            Some(i) => i,
            None => n,
        };
        let line = sub_chars(&s, from, e);
        if find_chars(&line, &define, 0).is_some() && find_chars(&line, &test, 0).is_some() {
            found = Some((from, e));
            break ;
        }
        if e >= n {
            found = None;
            break ;
        }
        from = e + 1;
    }
    let (b, e) = match found {
        Some(x) => x,
        None => {
            return Err(ManglingDetectionError::LlvmIrParseError);
        },
    };
    let line = sub_chars(&s, b, e);
    let at = match find_chars(&line, &at_sign, 0) {
        Some(at) => at,
        None => {
            return Err(ManglingDetectionError::LlvmIrParseError);
        },
    };
    proof {
        lemma_find_from(line@, seq!['@'], 0);
    }
    let rest = sub_chars(&line, at + 1, line.len());
    let t = match find_chars(&rest, &test, 0) {
        Some(t) => t,
        None => {
            return Err(ManglingDetectionError::LlvmIrParseError);
        },
    };
    proof {
        lemma_find_from(rest@, "test"@, 0);
    }
    let m = sub_chars(&rest, 0, t);
    match ManglingVersion::from_prefix_chars(&m) {
        Some(v) => Ok(v),
        None => Err(ManglingDetectionError::UnrecognizedMangling(string_from_chars(&m))),
    }
}

/// Every name that starts with `_R` is read as v0-mangled.
pub proof fn lemma_underscore_r_is_v0(s: Seq<char>)
    requires
        s.len() >= 2,
        s[0] == '_',
        s[1] == 'R',
    ensures
        mangling_of(s) == Some(ManglingVersion::V0),
{
    reveal_strlit("_R");
    assert(s.subrange(0, 2) =~= "_R"@);
}

/// Every name that starts with `_ZN` is read as legacy-mangled.
pub proof fn lemma_underscore_zn_is_legacy(s: Seq<char>)
    requires
        s.len() >= 3,
        s[0] == '_',
        s[1] == 'Z',
        s[2] == 'N',
    ensures
        mangling_of(s) == Some(ManglingVersion::Legacy),
{
    reveal_strlit("_R");
    reveal_strlit("_ZN");
    assert(s.subrange(0, 3) =~= "_ZN"@);
    assert(s.subrange(0, 2) != "_R"@) by {
        assert(s.subrange(0, 2)[1] == 'Z');
    }
}

/// A name that starts with neither `_R` nor `_ZN` has no mangling scheme.
pub proof fn lemma_other_names_unmangled(s: Seq<char>)
    requires
        !(s.len() >= 2 && s[0] == '_' && s[1] == 'R'),
        !(s.len() >= 3 && s[0] == '_' && s[1] == 'Z' && s[2] == 'N'),
    ensures
        mangling_of(s) is None,
{
    reveal_strlit("_R");
    reveal_strlit("_ZN");
    if s.len() >= 2 && s.subrange(0, 2) == "_R"@ {
        assert(s.subrange(0, 2)[0] == s[0] && s.subrange(0, 2)[1] == s[1]);
    }
    if s.len() >= 3 && s.subrange(0, 3) == "_ZN"@ {
        assert(s.subrange(0, 3)[0] == s[0] && s.subrange(0, 3)[1] == s[1] && s.subrange(0, 3)[2] == s[2]);
    }
}

} // verus!
