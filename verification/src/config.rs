//! Configuration of the extractor: what to do, how to handle failures, where to log and
//! how to run the harnesses.

use vstd::prelude::*;
use crate::decompose::Patterns;

verus! {

/// `log::Level`, the verbosity of a log record, carried through the configuration.
#[verifier::external_type_specification]
#[verifier::external_body]
pub struct ExLevel(log::Level);

/// What the extractor does with the selected harnesses.
#[derive(Clone, Copy, Debug, PartialEq, Eq, Structural)]
pub enum Action {
    /// Print their names.
    List,
    /// Extract their circuits.
    Extract,
}

/// What a failed harness does to the run.
#[derive(Clone, Copy, Debug, PartialEq, Eq, Structural)]
pub enum FailMode {
    /// Stop at the first failure.
    Fast,
    /// Count the failure and go on.
    Continue,
}

/// The formats the extracted circuits are written in.
#[derive(Copy, Clone, PartialEq, Eq, Structural, PartialOrd, Ord, Debug)]
pub enum OutputFormat {
    Picus,
}

/// Where the log goes, and from which level on.
pub struct LoggingConfig {
    path: String,
    level: log::Level,
}

impl LoggingConfig {
    pub closed spec fn spec_path(&self) -> Seq<char> {
        self.path@
    }

    pub closed spec fn spec_level(&self) -> log::Level {
        self.level
    }

    pub fn new(path: &str, level: log::Level) -> (r: Self)
        ensures
            r.spec_path() == path@,
            r.spec_level() == level,
    {
        LoggingConfig { path: path.to_owned(), level }
    }

    pub fn path(&self) -> (r: &str)
        ensures
            r@ == self.spec_path(),
    {
        self.path.as_str()
    }

    pub fn level(&self) -> (r: log::Level)
        ensures
            r == self.spec_level(),
    {
        self.level
    }
}

/// Information required for executing a harness.
pub struct Ctx<'s> {
    constants: &'s [String],
    debug_comments: bool,
    disable_decomposition_pattern: bool,
}

impl<'s> Ctx<'s> {
    pub closed spec fn spec_constants(&self) -> &'s [String] {
        self.constants
    }

    pub closed spec fn spec_debug_comments(&self) -> bool {
        self.debug_comments
    }

    pub closed spec fn spec_disable_decomposition_pattern(&self) -> bool {
        self.disable_decomposition_pattern
    }

    pub fn new(constants: &'s [String], debug_comments: bool, disable_decomposition_pattern: bool) -> (r:
        Self)
        ensures
            r.spec_constants() == constants,
            r.spec_debug_comments() == debug_comments,
            r.spec_disable_decomposition_pattern() == disable_decomposition_pattern,
    {
        Ctx { constants, debug_comments, disable_decomposition_pattern }
    }

    pub fn constants(&self) -> (r: &'s [String])
        ensures
            r == self.spec_constants(),
    {
        self.constants
    }

    /// Whether the generated IR carries debug comments.
    pub fn debug_comments(&self) -> (r: bool)
        ensures
            r == self.spec_debug_comments(),
    {
        self.debug_comments
    }

    /// The rewrite patterns of custom gates in the lowering: the decomposition pattern unless it is
    /// disabled.
    pub fn patterns(&self) -> (r: Patterns)
        ensures
            r.decompose_core == !self.spec_disable_decomposition_pattern(),
    {
        Patterns { decompose_core: !self.disable_decomposition_pattern }
    }
}

/// How the harnesses run.
pub struct HarnessConfig<'s> {
    constants: &'s [String],
    debug_comments: bool,
    enable_decomposition_rewrite: bool,
    allow_injected_ir_for_outputs: bool,
}

impl<'s> HarnessConfig<'s> {
    pub closed spec fn spec_fields(&self) -> (&'s [String], bool, bool, bool) {
        (
            self.constants,
            self.debug_comments,
            self.enable_decomposition_rewrite,
            self.allow_injected_ir_for_outputs,
        )
    }

    pub fn new(
        constants: &'s [String],
        debug_comments: bool,
        enable_decomposition_rewrite: bool,
        allow_injected_ir_for_outputs: bool,
    ) -> (r: Self)
        ensures
            r.spec_fields() == (
                constants,
                debug_comments,
                enable_decomposition_rewrite,
                allow_injected_ir_for_outputs,
            ),
    {
        HarnessConfig {
            constants,
            debug_comments,
            enable_decomposition_rewrite,
            allow_injected_ir_for_outputs,
        }
    }

    /// The context the harnesses run in: the constants and the debug comments pass
    /// through; the decomposition pattern is disabled where the rewrite is not enabled.
    pub fn make_ctx(&self) -> (r: Ctx<'s>)
        ensures
            r.spec_constants() == self.spec_fields().0,
            r.spec_debug_comments() == self.spec_fields().1,
            r.spec_disable_decomposition_pattern() == !self.spec_fields().2,
    {
        Ctx::new(self.constants, self.debug_comments, !self.enable_decomposition_rewrite)
    }
}

} // verus!
