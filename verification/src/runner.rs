//! Classifying one test run: what the user's regression policy makes of an
//! exit status and of the diagnostics on standard error.

use vstd::prelude::*;
use crate::least_satisfying::Satisfies;
use crate::text::{contains_str, seq_contains};

verus! {

/// What one test run showed at one point.
#[derive(Clone, Copy, Debug, PartialEq, Eq, Structural)]
pub enum TestOutcome {
    /// The point behaves like the good boundary.
    Baseline,
    /// The point reproduces the regression.
    Regressed,
}

/// What counts as a regression.
#[derive(Clone, Copy, Debug, PartialEq, Eq, Structural)]
pub enum RegressOn {
    /// Regressed exactly when the run reports a non-success status; the
    /// default.
    Error,
    /// Regressed exactly when the run reports success: for bisecting to the
    /// point where a bug was fixed.
    Success,
    /// Regressed exactly when the diagnostics show an internal compiler
    /// error.
    Ice,
    /// Regressed exactly when the diagnostics show no internal compiler
    /// error: for bisecting to the point where an internal error was fixed.
    NonIce,
    /// Baseline exactly when the run fails without an internal compiler
    /// error: for ill-formed programs that stopped being rejected.
    NonError,
}

impl RegressOn {
    /// Only the policies that look for internal compiler errors need the
    /// diagnostics captured; the others let them pass through to the user.
    pub fn must_process_stderr(self) -> (r: bool)
        ensures
            r == (self == RegressOn::Ice || self == RegressOn::NonIce || self
                == RegressOn::NonError),
    {
        match self {
            RegressOn::Error | RegressOn::Success => false,
            RegressOn::NonError | RegressOn::Ice | RegressOn::NonIce => true,
        }
    }
}

/// The diagnostics carry one of the internal-compiler-error markers.
pub open spec fn spec_saw_ice(stderr: Seq<char>) -> bool {
    ||| seq_contains(stderr, "error: internal compiler error"@)
    ||| seq_contains(stderr, "' has overflowed its stack"@)
    ||| seq_contains(stderr, "error: the compiler unexpectedly panicked"@)
}

/// Whether the captured diagnostics show an internal compiler error.
pub fn saw_ice(stderr: &str) -> (r: bool)
    ensures
        r == spec_saw_ice(stderr@),
{
    contains_str(stderr, "error: internal compiler error") || contains_str(
        stderr,
        "' has overflowed its stack",
    ) || contains_str(stderr, "error: the compiler unexpectedly panicked")
}

/// The classification table: what each policy makes of the exit status and
/// of whether an internal compiler error was seen.
pub open spec fn spec_outcome(policy: RegressOn, exit_success: bool, ice: bool) -> TestOutcome {
    match policy {
        RegressOn::Error => if exit_success {
            TestOutcome::Baseline
        } else {
            TestOutcome::Regressed
        },
        RegressOn::Success => if exit_success {
            TestOutcome::Regressed
        } else {
            TestOutcome::Baseline
        },
        RegressOn::Ice => if ice {
            TestOutcome::Regressed
        } else {
            TestOutcome::Baseline
        },
        RegressOn::NonIce => if ice {
            TestOutcome::Baseline
        } else {
            TestOutcome::Regressed
        },
        RegressOn::NonError => if exit_success || ice {
            TestOutcome::Regressed
        } else {
            TestOutcome::Baseline
        },
    }
}

/// Classifies a finished run from its exit status and diagnostics.
pub fn outcome_of(policy: RegressOn, exit_success: bool, stderr: &str) -> (r: TestOutcome)
    ensures
        r == spec_outcome(policy, exit_success, spec_saw_ice(stderr@)),
{
    let ice = saw_ice(stderr);
    match (policy, exit_success) {
        (RegressOn::Error, true) | (RegressOn::Success, false) => TestOutcome::Baseline,
        (RegressOn::Error, false)
        | (RegressOn::Success, true)
        | (RegressOn::NonError, true) => TestOutcome::Regressed,
        (RegressOn::Ice, _) | (RegressOn::NonError, false) => {
            if ice {
                TestOutcome::Regressed
            } else {
                TestOutcome::Baseline
            }
        },
        (RegressOn::NonIce, _) => {
            if ice {
                TestOutcome::Baseline
            } else {
                TestOutcome::Regressed
            }
        },
    }
}

/// Classifies one raw execution.  A timeout-wrapper expiry (exit code 124
/// under `--timeout`) marks the point regressed outright; every other run is
/// read through the policy table.
pub fn classify_run(
    policy: RegressOn,
    timeout_set: bool,
    exit_code: Option<i32>,
    exit_success: bool,
    stderr: &str,
) -> (r: TestOutcome)
    requires
        exit_code == Some(124i32) ==> timeout_set,
    ensures
        exit_code == Some(124i32) ==> r == TestOutcome::Regressed,
        exit_code != Some(124i32) ==> r == spec_outcome(
            policy,
            exit_success,
            spec_saw_ice(stderr@),
        ),
{
    if let Some(code) = exit_code {
        if code == 124 {
            return TestOutcome::Regressed;
        }
    }
    outcome_of(policy, exit_success, stderr)
}

/// The verdict one outcome contributes to the search: the bisection looks
/// for the first point that regresses, so a regressed run satisfies it.
pub fn satisfies_of_outcome(o: TestOutcome) -> (r: Satisfies)
    ensures
        o == TestOutcome::Regressed ==> r == Satisfies::Yes,
        o == TestOutcome::Baseline ==> r == Satisfies::No,
{
    match o {
        TestOutcome::Baseline => Satisfies::No,
        TestOutcome::Regressed => Satisfies::Yes,
    }
}

/// What the user chose in interactive mode.
#[derive(Clone, Copy, Debug, PartialEq, Eq, Structural)]
pub enum PromptChoice {
    MarkRegressed,
    MarkBaseline,
    Retry,
}

/// The choice offered first in interactive mode: the automatic
/// classification of the run.
pub fn prompt_default_choice(o: TestOutcome) -> (r: usize)
    ensures
        o == TestOutcome::Regressed ==> r == 0,
        o == TestOutcome::Baseline ==> r == 1,
{
    match o {
        TestOutcome::Regressed => 0,
        TestOutcome::Baseline => 1,
    }
}

/// Reads the index the prompt returned back into a choice.
pub fn interpret_choice(idx: usize) -> (r: PromptChoice)
    requires
        idx < 3,
    ensures
        idx == 0 ==> r == PromptChoice::MarkRegressed,
        idx == 1 ==> r == PromptChoice::MarkBaseline,
        idx == 2 ==> r == PromptChoice::Retry,
{
    if idx == 0 {
        PromptChoice::MarkRegressed
    } else if idx == 1 {
        PromptChoice::MarkBaseline
    } else {
        PromptChoice::Retry
    }
}

/// The label shown when a run matches the old, baseline behaviour, when the
/// user did not choose one.
pub fn default_term_old(script: bool, regress: RegressOn) -> (r: &'static str)
    ensures
        script && regress == RegressOn::Error ==> r@ == "Script returned success"@,
        script && regress == RegressOn::Success ==> r@ == "Script returned error"@,
        script && regress == RegressOn::Ice ==> r@ == "Script did not ICE"@,
        script && regress == RegressOn::NonIce ==> r@ == "Script found ICE"@,
        script && regress == RegressOn::NonError ==> r@ == "Script returned error (no ICE)"@,
        !script && regress == RegressOn::Error ==> r@ == "Successfully compiled"@,
        !script && regress == RegressOn::Success ==> r@ == "Compile error"@,
        !script && regress == RegressOn::Ice ==> r@ == "Did not ICE"@,
        !script && regress == RegressOn::NonIce ==> r@ == "Found ICE"@,
        !script && regress == RegressOn::NonError ==> r@ == "Compile error (no ICE)"@,
{
    if script {
        match regress {
            RegressOn::Error => "Script returned success",
            RegressOn::Success => "Script returned error",
            RegressOn::Ice => "Script did not ICE",
            RegressOn::NonIce => "Script found ICE",
            RegressOn::NonError => "Script returned error (no ICE)",
        }
    } else {
        match regress {
            RegressOn::Error => "Successfully compiled",
            RegressOn::Success => "Compile error",
            RegressOn::Ice => "Did not ICE",
            RegressOn::NonIce => "Found ICE",
            RegressOn::NonError => "Compile error (no ICE)",
        }
    }
}

/// The label shown when a run matches the new, regressed behaviour, when the
/// user did not choose one.
pub fn default_term_new(script: bool, regress: RegressOn) -> (r: &'static str)
    ensures
        script && regress == RegressOn::Error ==> r@ == "Script returned error"@,
        script && regress == RegressOn::Success ==> r@ == "Script returned success"@,
        script && regress == RegressOn::Ice ==> r@ == "Script found ICE"@,
        script && regress == RegressOn::NonIce ==> r@ == "Script did not ICE"@,
        script && regress == RegressOn::NonError ==> r@ == "Script returned success or ICE"@,
        !script && regress == RegressOn::Error ==> r@ == "Compile error"@,
        !script && regress == RegressOn::Success ==> r@ == "Successfully compiled"@,
        !script && regress == RegressOn::Ice ==> r@ == "Found ICE"@,
        !script && regress == RegressOn::NonIce ==> r@ == "Did not ICE"@,
        !script && regress == RegressOn::NonError ==> r@ == "Successfully compiled or ICE"@,
{
    if script {
        match regress {
            RegressOn::Error => "Script returned error",
            RegressOn::Success => "Script returned success",
            RegressOn::Ice => "Script found ICE",
            RegressOn::NonIce => "Script did not ICE",
            RegressOn::NonError => "Script returned success or ICE",
        }
    } else {
        match regress {
            RegressOn::Error => "Compile error",
            RegressOn::Success => "Successfully compiled",
            RegressOn::Ice => "Found ICE",
            RegressOn::NonIce => "Did not ICE",
            RegressOn::NonError => "Successfully compiled or ICE",
        }
    }
}

} // verus!
