//! The upgrade dry-run engine: a single-shot execution of a runtime
//! upgrade's migrations against a point-in-time snapshot.
//!
//! The surrounding process builds one execution context, invokes the
//! run-upgrade entry point with the payload of
//! [`crate::pipeline::upgrade_payload`] — twice when idempotency is
//! checked — and hands the outcomes to [`run`]. Unlike the replay engine,
//! every failure after context construction is terminal.

use vstd::prelude::*;

use crate::context::bytes_equal;
use crate::pipeline::CallErrorKind;
use crate::selectors::UpgradeCheckSelect;
use crate::weights::{decode_weight_report, spec_decoded_report, WeightReport};

verus! {

/// Where the dry run's point-in-time state comes from. Resolving it into
/// an execution context is the state provider's work, done once before the
/// engine begins.
pub enum StateSource {
    /// A live node's state at the given hex-spelled block hash.
    LiveAtBlock { at: String },
    /// An offline snapshot file at this path.
    SnapshotFile { path: String },
    /// The remote node's current best state.
    ExistingRemote,
}

/// Configuration of a dry run.
pub struct Command {
    /// The state the migrations run against.
    pub state: StateSource,
    /// Which optional checks the sandboxed call performs.
    pub checks: UpgradeCheckSelect,
    /// Accept a migration whose measured cost exceeds its declared budget.
    pub no_weight_warnings: bool,
    /// Skip executing the migrations a second time to compare post-states.
    pub no_idempotency_checks: bool,
}

/// What one sandboxed run-upgrade invocation produced.
pub enum CallOutcome {
    /// The call returned: its raw output and the storage root of the state
    /// it left behind.
    Success { raw_output: Vec<u8>, post_root: Vec<u8> },
    /// The call failed; fatal here.
    Failure(CallErrorKind),
}

/// Why a dry run failed.
#[derive(Clone, Copy, PartialEq, Eq, Structural, Debug)]
pub enum UpgradeError {
    /// The sandboxed call itself failed.
    Call(CallErrorKind),
    /// The raw output does not open with a well-formed resource-cost
    /// report.
    DecodeReport,
    /// The migrations consumed more than their declared budget in at least
    /// one dimension.
    WeightBudgetExceeded,
    /// A second execution left a different storage root than the first:
    /// the migrations are not idempotent.
    NotIdempotent,
}

/// The dry run's verdict, as a function of the two call outcomes and the
/// configuration: the first call's failure, a malformed report, an exceeded
/// budget (unless waived) and a differing second post-state (unless
/// unchecked) are each fatal, in that order.
pub open spec fn spec_dry_run_verdict(
    cmd: Command,
    first: CallOutcome,
    second: Option<CallOutcome>,
) -> Result<WeightReport, UpgradeError> {
    match first {
        CallOutcome::Failure(e) => Err(UpgradeError::Call(e)),
        CallOutcome::Success { raw_output, post_root } => match spec_decoded_report(raw_output@) {
            Option::None => Err(UpgradeError::DecodeReport),
            Option::Some(rep) => {
                if !cmd.no_weight_warnings && !(rep.consumed.ref_time <= rep.total.ref_time
                    && rep.consumed.proof_size <= rep.total.proof_size) {
                    Err(UpgradeError::WeightBudgetExceeded)
                } else {
                    match second {
                        Option::None => Ok(rep),
                        Option::Some(CallOutcome::Failure(e)) => Err(UpgradeError::Call(e)),
                        Option::Some(CallOutcome::Success { post_root: second_root, .. }) => {
                            if second_root@ == post_root@ {
                                Ok(rep)
                            } else {
                                Err(UpgradeError::NotIdempotent)
                            }
                        },
                    }
                }
            },
        },
    }
}

/// Run the dry-run engine's decision over what the sandbox produced.
///
/// `first` is the run-upgrade invocation the engine always makes; `second`
/// is the repeated invocation made exactly when idempotency is checked.
/// On success the decoded resource-cost report is returned for the
/// percentage summary; every failure is the process's terminal error.
pub fn run(cmd: &Command, first: CallOutcome, second: Option<CallOutcome>) -> (r: Result<
    WeightReport,
    UpgradeError,
>)
    requires
        (second is Some) == !cmd.no_idempotency_checks,
    ensures
        r == spec_dry_run_verdict(*cmd, first, second),
{
    let report: WeightReport;
    let first_root: Vec<u8>;
    match first {
        CallOutcome::Failure(e) => {
            return Err(UpgradeError::Call(e));
        },
        CallOutcome::Success { raw_output, post_root } => {
            match decode_weight_report(&raw_output) {
                Option::None => {
                    return Err(UpgradeError::DecodeReport);
                },
                Option::Some(rep) => {
                    report = rep;
                    first_root = post_root;
                },
            }
        },
    }
    if !cmd.no_weight_warnings && !(report.consumed.ref_time <= report.total.ref_time
        && report.consumed.proof_size <= report.total.proof_size) {
        return Err(UpgradeError::WeightBudgetExceeded);
    }
    match second {
        Option::None => Ok(report),
        Option::Some(CallOutcome::Failure(e)) => Err(UpgradeError::Call(e)),
        Option::Some(CallOutcome::Success { post_root: second_root, .. }) => {
            if bytes_equal(&second_root, &first_root) {
                Ok(report)
            } else {
                Err(UpgradeError::NotIdempotent)
            }
        },
    }
}

/// Two dry runs against the same frozen snapshot with the same
/// configuration see the same call outcomes — the snapshot pins the
/// sandbox's input — and so reach the same verdict; in particular they
/// decode byte-identical weight reports.
pub proof fn lemma_dry_run_idempotent(
    cmd: Command,
    first: CallOutcome,
    second: Option<CallOutcome>,
    r1: Result<WeightReport, UpgradeError>,
    r2: Result<WeightReport, UpgradeError>,
)
    requires
        r1 == spec_dry_run_verdict(cmd, first, second),
        r2 == spec_dry_run_verdict(cmd, first, second),
    ensures
        r1 == r2,
{
}

} // verus!
