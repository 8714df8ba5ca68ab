//! The command line's settings and the decisions that follow from them.

use vstd::prelude::*;
use crate::chips::{Chip, Type};
use crate::config::{Action, FailMode, HarnessConfig, LoggingConfig, OutputFormat};
use crate::picus::{PicusConfig, Preludes};
use crate::query::{char_is_whitespace, is_whitespace};
use crate::text::string_views;
use vstd::string::{StrSliceExecFns, StringExecFns};

verus! {

/// `std::io::Error`, an input/output failure, carried through as the command line's
/// error.
#[verifier::external_type_specification]
#[verifier::external_body]
pub struct ExIoError(std::io::Error);

/// Why the command line's settings cannot be used.
#[derive(Debug)]
pub enum CliError {
    /// Both the constants and a file of constants were given.
    ConstantsConfigErr,
    /// Reading the file of constants failed.
    IOError(std::io::Error),
}

impl CliError {
    /// The message of a refusal of the settings.
    pub fn message(&self) -> (r: Option<&'static str>)
        ensures
            self is ConstantsConfigErr ==> (r matches Some(m) && m@
                == "Cannot set --constants and --constants-file at the same time"@),
            self is IOError ==> r is None,
    {
        match self {
            CliError::ConstantsConfigErr => Some("Cannot set --constants and --constants-file at the same time"),
            CliError::IOError(_) => None,
        }
    }
}

/// What the set-up has to do about the constants before the run.
#[derive(Debug, PartialEq, Eq)]
pub enum ConstantsSetup {
    /// Read the constants from this file.
    ReadFile(String),
    /// No constants are given: warn that some circuits may fail to extract.
    WarnMissing,
    /// Use the constants given on the command line.
    Keep,
}

/// The settings of the command line.
pub struct Cli {
    pub instructions: Vec<String>,
    pub chip: Option<Chip>,
    pub format: Vec<OutputFormat>,
    pub ty: Option<Type>,
    pub output: Option<String>,
    pub constants: Vec<String>,
    pub constants_file: Option<String>,
    pub method_whitelist: Vec<String>,
    pub method_blacklist: Vec<String>,
    pub log: Option<String>,
    pub log_level: log::Level,
    pub disable_decomposition_rewrite: bool,
    pub debug_comments: bool,
    pub picus_no_opt: bool,
    pub no_opt: bool,
    pub fail_fast: bool,
    pub prelude: Option<Preludes>,
    pub dump_ir: bool,
    pub list: bool,
}

/// What an application configuration provides to the run.
pub trait AppConfig {
    fn logging(&self) -> Option<LoggingConfig>;

    fn fail_mode(&self) -> FailMode;

    fn action(&self) -> Action;

    fn formats(&self) -> Vec<OutputFormat>;

    fn optimize_ir(&self) -> bool;

    fn dump_ir(&self) -> bool;

    fn picus_config(&self) -> PicusConfig;
}

impl AppConfig for Cli {
    /// A log file at the given path, at the given level, where a path is given.
    fn logging(&self) -> (r: Option<LoggingConfig>)
        ensures
            match self.log {
                None => r is None,
                Some(p) => (r matches Some(l) && l.spec_path() == p@ && l.spec_level() == self.log_level),
            },
    {
        match &self.log {
            Some(path) => Some(LoggingConfig::new(path.as_str(), self.log_level)),
            None => None,
        }
    }

    /// Stop at the first failure when asked to fail fast, else go on.
    fn fail_mode(&self) -> (r: FailMode)
        ensures
            r == if self.fail_fast {
                FailMode::Fast
            } else {
                FailMode::Continue
            },
    {
        if self.fail_fast {
            FailMode::Fast
        } else {
            FailMode::Continue
        }
    }

    /// List the harnesses when asked to, else extract them.
    fn action(&self) -> (r: Action)
        ensures
            r == if self.list {
                Action::List
            } else {
                Action::Extract
            },
    {
        if self.list {
            Action::List
        } else {
            Action::Extract
        }
    }

    /// The formats asked for, Picus where none is.
    fn formats(&self) -> (r: Vec<OutputFormat>)
        ensures
            self.format.len() == 0 ==> r@ == seq![OutputFormat::Picus],
            self.format.len() > 0 ==> r@ == self.format@,
    {
        if self.format.len() == 0 {
            let mut v: Vec<OutputFormat> = Vec::new();
            v.push(OutputFormat::Picus);
            return v;
        }
        let mut v: Vec<OutputFormat> = Vec::new();
        let mut i: usize = 0;
        while i < self.format.len()
            invariant
                i <= self.format.len(),
                v@ == self.format@.take(i as int),
            decreases self.format.len() - i,
        {
            v.push(self.format[i]);
            i += 1;
            assert(v@ =~= self.format@.take(i as int));
        }
        assert(self.format@.take(self.format.len() as int) =~= self.format@);
        v
    }

    /// The IR is optimized unless optimizations are off.
    fn optimize_ir(&self) -> (r: bool)
        ensures
            r == !self.no_opt,
    {
        !self.no_opt
    }

    fn dump_ir(&self) -> (r: bool)
        ensures
            r == self.dump_ir,
    {
        self.dump_ir
    }

    /// The Picus output is optimized unless either the Picus optimizations or all
    /// optimizations are off; the prelude passes through.
    fn picus_config(&self) -> (r: PicusConfig)
        ensures
            r == (PicusConfig { optimize: !(self.picus_no_opt || self.no_opt), prelude: self.prelude }),
    {
        PicusConfig::new(!(self.picus_no_opt || self.no_opt), self.prelude)
    }
}

impl Cli {
    /// What to do about the constants: the constants and a file of constants exclude
    /// each other; a file is read; with neither, a warning is due.
    pub fn setup(&self) -> (r: Result<ConstantsSetup, CliError>)
        ensures
            match (self.constants.len() == 0, self.constants_file) {
                (false, Some(_)) => r matches Err(CliError::ConstantsConfigErr),
                (true, Some(p)) => (r matches Ok(ConstantsSetup::ReadFile(f)) && f@ == p@),
                (true, None) => r matches Ok(ConstantsSetup::WarnMissing),
                (false, None) => r matches Ok(ConstantsSetup::Keep),
            },
    {
        match (self.constants.len() == 0, &self.constants_file) {
            (false, Some(_)) => Err(CliError::ConstantsConfigErr),
            (true, Some(path)) => Ok(ConstantsSetup::ReadFile(path.clone())),
            (true, None) => Ok(ConstantsSetup::WarnMissing),
            (false, None) => Ok(ConstantsSetup::Keep),
        }
    }

    /// How the harnesses run: with the constants and the debug comments as given, the
    /// decomposition rewrite enabled unless disabled, and no injected IR for outputs.
    pub fn harness_config(&self) -> (r: HarnessConfig<'_>)
        ensures
            r.spec_fields().0@ == self.constants@,
            r.spec_fields().1 == self.debug_comments,
            r.spec_fields().2 == !self.disable_decomposition_rewrite,
            !r.spec_fields().3,
    {
        HarnessConfig::new(self.constants.as_slice(), self.debug_comments, !self.disable_decomposition_rewrite, false)
    }
}


/// Index of the first newline at or after `i`, or the end of `s`.
pub open spec fn line_end(s: Seq<char>, i: int) -> int
    decreases s.len() - i,
{
    if i < 0 || i >= s.len() {
        s.len() as int
    } else if s[i] == '\n' {
        i
    } else {
        line_end(s, i + 1)
    }
}

/// Index of the first character of `s[a..e]` that is not whitespace, or `e`.
pub open spec fn skip_ws(s: Seq<char>, a: int, e: int) -> int
    decreases e - a,
{
    if 0 <= a < e && char_is_whitespace(s[a]) {
        skip_ws(s, a + 1, e)
    } else {
        a
    }
}

/// One past the last character of `s[a..b]` that is not whitespace, or `a`.
pub open spec fn back_ws(s: Seq<char>, a: int, b: int) -> int
    decreases b - a,
{
    if a < b && char_is_whitespace(s[b - 1]) {
        back_ws(s, a, b - 1)
    } else {
        b
    }
}

/// The line that starts at `i`, without its leading and trailing whitespace.
pub open spec fn trimmed_line(s: Seq<char>, i: int) -> Seq<char> {
    let a = skip_ws(s, i, line_end(s, i));
    s.subrange(a, back_ws(s, a, line_end(s, i)))
}

/// The constants of a file's text from index `i` on: one per line, with the whitespace
/// around it taken off; blank lines hold none.
pub open spec fn constants_from(s: Seq<char>, i: int) -> Seq<Seq<char>>
    decreases s.len() - i,
{
    if i < 0 || i > s.len() {
        Seq::empty()
    } else {
        let line = trimmed_line(s, i);
        let here: Seq<Seq<char>> = if line.len() > 0 {
            seq![line]
        } else {
            Seq::empty()
        };
        if line_end(s, i) < s.len() {
            proof {
                lemma_line_end_bounds(s, i);
            }
            here + constants_from(s, line_end(s, i) + 1)
        } else {
            here
        }
    }
}

/// The end of the line that starts at `i` is the first newline from `i` on, or the end.
pub proof fn lemma_line_end_bounds(s: Seq<char>, i: int)
    requires
        0 <= i <= s.len(),
    ensures
        i <= line_end(s, i) <= s.len(),
        line_end(s, i) < s.len() ==> s[line_end(s, i)] == '\n',
        forall|j: int| i <= j < line_end(s, i) ==> s[j] != '\n',
    decreases s.len() - i,
{
    if i < s.len() && s[i] != '\n' {
        lemma_line_end_bounds(s, i + 1);
    }
}

proof fn lemma_skip_ws_bounds(s: Seq<char>, a: int, e: int)
    requires
        0 <= a <= e,
    ensures
        a <= skip_ws(s, a, e) <= e,
        skip_ws(s, a, e) < e ==> !char_is_whitespace(s[skip_ws(s, a, e)]),
    decreases e - a,
{
    if a < e && char_is_whitespace(s[a]) {
        lemma_skip_ws_bounds(s, a + 1, e);
    }
}

proof fn lemma_back_ws_bounds(s: Seq<char>, a: int, b: int)
    requires
        a <= b,
    ensures
        a <= back_ws(s, a, b) <= b,
        back_ws(s, a, b) > a ==> !char_is_whitespace(s[back_ws(s, a, b) - 1]),
    decreases b - a,
{
    if a < b && char_is_whitespace(s[b - 1]) {
        lemma_back_ws_bounds(s, a, b - 1);
    }
}

/// Every constant read from a text is non-empty, holds no newline, and neither starts
/// nor ends with whitespace.
pub proof fn lemma_constants_trimmed(s: Seq<char>, i: int)
    requires
        0 <= i <= s.len(),
    ensures
        forall|k: int|
            #![trigger constants_from(s, i)[k]]
            0 <= k < constants_from(s, i).len() ==> {
                let c = constants_from(s, i)[k];
                &&& c.len() > 0
                &&& !char_is_whitespace(c[0])
                &&& !char_is_whitespace(c[c.len() - 1])
                &&& forall|j: int| 0 <= j < c.len() ==> c[j] != '\n'
            },
    decreases s.len() - i,
{
    let e = line_end(s, i);
    lemma_line_end_bounds(s, i);
    let a = skip_ws(s, i, e);
    lemma_skip_ws_bounds(s, i, e);
    let b = back_ws(s, a, e);
    lemma_back_ws_bounds(s, a, e);
    let line = trimmed_line(s, i);
    assert(line == s.subrange(a, b));
    if line.len() > 0 {
        assert(line[0] == s[a]);
        assert(line[line.len() - 1] == s[b - 1]);
        assert forall|j: int| 0 <= j < line.len() implies line[j] != '\n' by {
            assert(line[j] == s[a + j]);
        }
    }
    let here: Seq<Seq<char>> = if line.len() > 0 {
        seq![line]
    } else {
        Seq::empty()
    };
    if e < s.len() {
        lemma_constants_trimmed(s, e + 1);
        let rest = constants_from(s, e + 1);
        assert(constants_from(s, i) == here + rest);
        assert forall|k: int| 0 <= k < constants_from(s, i).len() implies #[trigger] constants_from(s, i)[k]
            == if k < here.len() {
            line
        } else {
            rest[k - here.len()]
        } by {}
    } else {
        assert(constants_from(s, i) == here);
    }
}

/// The constants of a file's text: one per line, with the whitespace around it taken
/// off; blank lines hold none.
pub fn parse_constants(text: &str) -> (r: Vec<String>)
    ensures
        string_views(r@) == constants_from(text@, 0),
{
    let n = text.unicode_len();
    let mut out: Vec<String> = Vec::new();
    let mut start: usize = 0;
    loop
        invariant
            n == text@.len(),
            start <= n,
            string_views(out@) + constants_from(text@, start as int) == constants_from(text@, 0),
        decreases n - start,
    {
        let ghost s = text@;
        proof {
            lemma_line_end_bounds(s, start as int);
        }
        let mut e = start;
        while e < n && text.get_char(e) != '\n'
            invariant
                start <= e <= n,
                n == s.len(),
                s == text@,
                line_end(s, start as int) == line_end(s, e as int),
            decreases n - e,
        {
            e += 1;
        }
        let mut a = start;
        while a < e && is_whitespace(text.get_char(a))
            invariant
                start <= a <= e,
                e <= n,
                n == s.len(),
                s == text@,
                skip_ws(s, start as int, e as int) == skip_ws(s, a as int, e as int),
            decreases e - a,
        {
            a += 1;
        }
        let mut b = e;
        while b > a && is_whitespace(text.get_char(b - 1))
            invariant
                a <= b <= e,
                e <= n,
                n == s.len(),
                s == text@,
                back_ws(s, a as int, e as int) == back_ws(s, a as int, b as int),
            decreases b - a,
        {
            b -= 1;
        }
        let ghost before = string_views(out@);
        proof {
            assert(line_end(s, start as int) == e);
            assert(trimmed_line(s, start as int) == s.subrange(a as int, b as int));
        }
        if a < b {
            let line = String::from_str(text.substring_char(a, b));
            out.push(line);
            proof {
                assert(string_views(out@) == before.push(line@));
            }
        }
        if e == n {
            proof {
                assert(constants_from(s, start as int) == if a < b {
                    seq![s.subrange(a as int, b as int)]
                } else {
                    Seq::<Seq<char>>::empty()
                });
                assert(string_views(out@) =~= constants_from(s, 0));
            }
            return out;
        }
        proof {
            assert(constants_from(s, start as int) == (if a < b {
                seq![s.subrange(a as int, b as int)]
            } else {
                Seq::<Seq<char>>::empty()
            }) + constants_from(s, e + 1));
            assert(string_views(out@) + constants_from(s, e + 1) =~= constants_from(s, 0));
        }
        start = e + 1;
    }
}

} // verus!
