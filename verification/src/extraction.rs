//! Decisions of an extraction run: how harness failures are reported and counted, and
//! when the run as a whole fails.

use vstd::prelude::*;
use vstd::string::StringExecFns;
use crate::config::FailMode;
use crate::text::{append_decimal, decimal};

verus! {

/// The step of a harness's extraction that failed.
#[derive(Clone, Copy, Debug, PartialEq, Eq, Structural)]
pub enum AppErrorKind {
    HarnessFailed,
    OptFailed,
    IRDumpFailed,
    PicusWriteFailed,
}

/// The failure of one harness: the step, the harness's name and the cause as text.
pub struct AppError {
    kind: AppErrorKind,
    name: String,
    err: String,
}

/// The message of a failure.
pub open spec fn spec_app_error_message(kind: AppErrorKind, name: Seq<char>, err: Seq<char>) -> Seq<char> {
    match kind {
        AppErrorKind::HarnessFailed => "Harness "@ + name + " failed: "@ + err,
        AppErrorKind::OptFailed => "IR optimization pass failed for harness "@ + name + ": "@ + err,
        AppErrorKind::IRDumpFailed => "Failed to write IR dump of harness "@ + name + ": "@ + err,
        AppErrorKind::PicusWriteFailed => "Failed to write Picus result of harness "@ + name + ": "@
            + err,
    }
}

impl AppError {
    pub closed spec fn spec_kind(&self) -> AppErrorKind {
        self.kind
    }

    pub closed spec fn spec_name(&self) -> Seq<char> {
        self.name@
    }

    pub closed spec fn spec_err(&self) -> Seq<char> {
        self.err@
    }

    pub fn create(name: &str, kind: AppErrorKind, err: String) -> (r: Self)
        ensures
            r.spec_kind() == kind,
            r.spec_name() == name@,
            r.spec_err() == err@,
    {
        AppError { kind, name: name.to_owned(), err }
    }

    /// The harness itself failed.
    pub fn harness(name: &str, err: String) -> (r: Self)
        ensures
            r.spec_kind() == AppErrorKind::HarnessFailed,
            r.spec_name() == name@,
            r.spec_err() == err@,
    {
        Self::create(name, AppErrorKind::HarnessFailed, err)
    }

    /// An optimization pass of the IR failed.
    pub fn opt(name: &str, err: String) -> (r: Self)
        ensures
            r.spec_kind() == AppErrorKind::OptFailed,
            r.spec_name() == name@,
            r.spec_err() == err@,
    {
        Self::create(name, AppErrorKind::OptFailed, err)
    }

    /// Writing the IR dump failed.
    pub fn ir_dump(name: &str, err: String) -> (r: Self)
        ensures
            r.spec_kind() == AppErrorKind::IRDumpFailed,
            r.spec_name() == name@,
            r.spec_err() == err@,
    {
        Self::create(name, AppErrorKind::IRDumpFailed, err)
    }

    /// Writing the Picus output failed.
    pub fn picus(name: &str, err: String) -> (r: Self)
        ensures
            r.spec_kind() == AppErrorKind::PicusWriteFailed,
            r.spec_name() == name@,
            r.spec_err() == err@,
    {
        Self::create(name, AppErrorKind::PicusWriteFailed, err)
    }

    /// The failure in words.
    pub fn message(&self) -> (r: String)
        ensures
            r@ == spec_app_error_message(self.spec_kind(), self.spec_name(), self.spec_err()),
    {
        let mut out = match self.kind {
            AppErrorKind::HarnessFailed => String::from_str("Harness "),
            AppErrorKind::OptFailed => String::from_str("IR optimization pass failed for harness "),
            AppErrorKind::IRDumpFailed => String::from_str("Failed to write IR dump of harness "),
            AppErrorKind::PicusWriteFailed => String::from_str("Failed to write Picus result of harness "),
        };
        out.append(self.name.as_str());
        match self.kind {
            AppErrorKind::HarnessFailed => out.append(" failed: "),
            _ => out.append(": "),
        }
        out.append(self.err.as_str());
        proof {
            assert(out@ =~= spec_app_error_message(self.spec_kind(), self.spec_name(), self.spec_err()));
        }
        out
    }
}

/// A pass of the IR optimization whose validation is checked.
#[derive(Clone, Copy, Debug, PartialEq, Eq, Structural)]
pub enum OptStep {
    ConstantFold,
    Canonicalization,
}

impl OptStep {
    /// The pass as the log names it.
    pub fn log_name(&self) -> (r: &'static str)
        ensures
            r@ == match *self {
                OptStep::ConstantFold => "constant folding"@,
                OptStep::Canonicalization => "canonicalization"@,
            },
    {
        match self {
            OptStep::ConstantFold => "constant folding",
            OptStep::Canonicalization => "canonicalization",
        }
    }

    /// The error of a failed validation after the pass.
    pub fn failure_message(&self) -> (r: &'static str)
        ensures
            r@ == match *self {
                OptStep::ConstantFold => "Constant fold pass failed"@,
                OptStep::Canonicalization => "Canonicalization pass failed"@,
            },
    {
        match self {
            OptStep::ConstantFold => "Constant fold pass failed",
            OptStep::Canonicalization => "Canonicalization pass failed",
        }
    }
}

/// The counts of a run: harnesses attempted and harnesses that failed.
#[derive(Clone, Copy, Debug, PartialEq, Eq, Structural)]
pub struct Summary {
    pub errors: usize,
    pub generated: usize,
}

/// Why a run failed as a whole.
#[derive(Clone, Copy, Debug, PartialEq, Eq, Structural)]
pub enum RunFailure {
    /// In fail-fast mode, the harness of this index failed.
    FailedHarness(usize),
    /// This many harnesses failed.
    Errors(usize),
    /// No harness was selected.
    NoCircuits,
}

impl RunFailure {
    /// The failure of the run in words; a failed harness reports its own error.
    pub fn message(&self) -> (r: Option<String>)
        ensures
            match *self {
                RunFailure::FailedHarness(_) => r is None,
                RunFailure::Errors(n) => r matches Some(m) && m@ == "Extraction failed with "@
                    + decimal(n as nat) + " errors"@,
                RunFailure::NoCircuits => r matches Some(m) && m@ == "No circuits were generated!"@,
            },
    {
        match self {
            RunFailure::FailedHarness(_) => None,
            RunFailure::Errors(n) => {
                let mut out = String::from_str("Extraction failed with ");
                append_decimal(&mut out, *n);
                out.append(" errors");
                Some(out)
            },
            RunFailure::NoCircuits => Some(String::from_str("No circuits were generated!")),
        }
    }
}

impl Summary {
    pub fn new() -> (r: Self)
        ensures
            r == (Summary { errors: 0, generated: 0 }),
    {
        Summary { errors: 0, generated: 0 }
    }

    /// Counts the result of one harness; returns whether the run stops here, which it
    /// does on a failure in fail-fast mode. Other failures are counted.
    pub fn record(&mut self, failed: bool, mode: FailMode) -> (stop: bool)
        requires
            old(self).generated < usize::MAX,
            old(self).errors < usize::MAX,
        ensures
            final(self).generated == old(self).generated + 1,
            stop == (failed && mode == FailMode::Fast),
            final(self).errors == if failed && mode == FailMode::Continue {
                old(self).errors + 1
            } else {
                old(self).errors as int
            },
    {
        self.generated = self.generated + 1;
        if failed {
            match mode {
                FailMode::Fast => true,
                FailMode::Continue => {
                    self.errors = self.errors + 1;
                    false
                },
            }
        } else {
            false
        }
    }

    /// The end of a run: it failed if any harness failed, or if there was none.
    pub fn conclude(&self) -> (r: Result<(), RunFailure>)
        ensures
            self.errors > 0 ==> r == Err::<(), RunFailure>(RunFailure::Errors(self.errors)),
            self.errors == 0 && self.generated == 0 ==> r == Err::<(), RunFailure>(RunFailure::NoCircuits),
            self.errors == 0 && self.generated > 0 ==> r is Ok,
    {
        if self.errors > 0 {
            return Err(RunFailure::Errors(self.errors));
        }
        if self.generated == 0 {
            return Err(RunFailure::NoCircuits);
        }
        Ok(())
    }
}

/// Number of failures among the results.
pub open spec fn count_failures(outcomes: Seq<bool>) -> nat
    decreases outcomes.len(),
{
    if outcomes.len() == 0 {
        0
    } else {
        count_failures(outcomes.drop_last()) + if outcomes.last() {
            1nat
        } else {
            0nat
        }
    }
}

/// Index of the first failure, or -1.
pub open spec fn first_failure(outcomes: Seq<bool>) -> int
    decreases outcomes.len(),
{
    if outcomes.len() == 0 {
        -1
    } else if outcomes[0] {
        0
    } else {
        let r = first_failure(outcomes.drop_first());
        if r < 0 {
            -1
        } else {
            r + 1
        }
    }
}

proof fn lemma_count_bound(outcomes: Seq<bool>)
    ensures
        count_failures(outcomes) <= outcomes.len(),
        count_failures(outcomes) == 0 <==> forall|i: int| 0 <= i < outcomes.len() ==> !outcomes[i],
    decreases outcomes.len(),
{
    if outcomes.len() > 0 {
        lemma_count_bound(outcomes.drop_last());
        if count_failures(outcomes) == 0 {
            assert forall|i: int| 0 <= i < outcomes.len() implies !outcomes[i] by {
                if i < outcomes.len() - 1 {
                    assert(outcomes[i] == outcomes.drop_last()[i]);
                }
            }
        }
    }
}

proof fn lemma_first_failure(outcomes: Seq<bool>, i: int)
    requires
        0 <= i <= outcomes.len(),
        forall|j: int| 0 <= j < i ==> !outcomes[j],
        i < outcomes.len() ==> outcomes[i],
    ensures
        first_failure(outcomes) == if i == outcomes.len() {
            -1
        } else {
            i
        },
    decreases i,
{
    if i > 0 {
        assert forall|j: int| 0 <= j < i - 1 implies !outcomes.drop_first()[j] by {
            assert(outcomes.drop_first()[j] == outcomes[j + 1]);
        }
        lemma_first_failure(outcomes.drop_first(), i - 1);
    }
}

/// The end of a run over the harnesses' results, in order (`true` for a failure): in
/// fail-fast mode the first failure ends it; else it fails with the number of failures
/// if there are any, and without any harness it fails too. A successful run returns how
/// many harnesses it generated.
pub fn run_outcome(outcomes: &Vec<bool>, mode: FailMode) -> (r: Result<usize, RunFailure>)
    ensures
        mode == FailMode::Fast && first_failure(outcomes@) >= 0 ==> r == Err::<usize, RunFailure>(
            RunFailure::FailedHarness(first_failure(outcomes@) as usize),
        ),
        (mode == FailMode::Continue || first_failure(outcomes@) < 0) && count_failures(outcomes@) > 0
            ==> r == Err::<usize, RunFailure>(RunFailure::Errors(count_failures(outcomes@) as usize)),
        count_failures(outcomes@) == 0 && outcomes.len() == 0 ==> r == Err::<usize, RunFailure>(
            RunFailure::NoCircuits,
        ),
        count_failures(outcomes@) == 0 && outcomes.len() > 0 ==> r == Ok::<usize, RunFailure>(
            outcomes.len(),
        ),
{
    let mut summary = Summary::new();
    let mut i: usize = 0;
    while i < outcomes.len()
        invariant
            i <= outcomes.len(),
            summary.generated == i,
            summary.errors == count_failures(outcomes@.take(i as int)),
            count_failures(outcomes@.take(i as int)) <= i,
            mode == FailMode::Fast ==> forall|j: int| 0 <= j < i ==> !outcomes@[j],
        decreases outcomes.len() - i,
    {
        proof {
            assert(outcomes@.take(i + 1).drop_last() =~= outcomes@.take(i as int));
        }
        if summary.record(outcomes[i], mode) {
            proof {
                lemma_first_failure(outcomes@, i as int);
                lemma_count_bound(outcomes@);
            }
            return Err(RunFailure::FailedHarness(i));
        }
        i += 1;
    }
    proof {
        assert(outcomes@.take(outcomes.len() as int) =~= outcomes@);
        lemma_count_bound(outcomes@);
        if mode == FailMode::Fast {
            lemma_first_failure(outcomes@, outcomes.len() as int);
            assert(count_failures(outcomes@) == 0);
        }
    }
    match summary.conclude() {
        Ok(()) => Ok(summary.generated),
        Err(e) => Err(e),
    }
}

} // verus!
