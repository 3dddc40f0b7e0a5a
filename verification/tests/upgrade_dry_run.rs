//! The dry-run engine's verdicts, with reports encoded by the reference
//! weight type.

use parity_scale_codec::Encode;
use try_replay::on_runtime_upgrade::{run, CallOutcome, Command, StateSource, UpgradeError};
use try_replay::pipeline::{upgrade_payload, CallErrorKind, EntryPoint};
use try_replay::selectors::UpgradeCheckSelect;
use try_replay::weights::{
    decode_weight_report, proof_size_percent_x100, ref_time_percent_x100,
};

fn report_bytes(consumed: (u64, u64), total: (u64, u64)) -> Vec<u8> {
    let c = sp_weights::Weight::from_parts(consumed.0, consumed.1);
    let t = sp_weights::Weight::from_parts(total.0, total.1);
    (c, t).encode()
}

fn default_command() -> Command {
    Command {
        state: StateSource::SnapshotFile { path: String::from("state.snap") },
        checks: UpgradeCheckSelect::All,
        no_weight_warnings: false,
        no_idempotency_checks: false,
    }
}

fn success(raw: Vec<u8>, root: &[u8]) -> CallOutcome {
    CallOutcome::Success { raw_output: raw, post_root: root.to_vec() }
}

#[test]
fn report_decoding_matches_reference_encoding() {
    let raw = report_bytes((123_456_789, 4096), (2_000_000_000_000, 5 * 1024 * 1024));
    let rep = decode_weight_report(&raw).expect("well-formed report");
    assert_eq!(rep.consumed.ref_time, 123_456_789);
    assert_eq!(rep.consumed.proof_size, 4096);
    assert_eq!(rep.total.ref_time, 2_000_000_000_000);
    assert_eq!(rep.total.proof_size, 5 * 1024 * 1024);
}

#[test]
fn trailing_bytes_after_the_report_are_ignored() {
    let mut raw = report_bytes((1, 2), (3, 4));
    raw.extend_from_slice(&[0xde, 0xad]);
    let rep = decode_weight_report(&raw).expect("prefix decodes");
    assert_eq!(rep.consumed.ref_time, 1);
    assert_eq!(rep.total.proof_size, 4);
}

#[test]
fn malformed_report_is_rejected() {
    // A big form announcing more than eight payload bytes.
    let raw = vec![0xff_u8, 1, 2, 3];
    assert!(decode_weight_report(&raw).is_none());
}

#[test]
fn ok_migration_succeeds() {
    let cmd = default_command();
    let raw = report_bytes((100, 50), (1000, 500));
    let r = run(
        &cmd,
        success(raw.clone(), &[7; 32]),
        Some(success(raw, &[7; 32])),
    );
    let rep = r.expect("within budget and idempotent");
    assert_eq!(rep.consumed.ref_time, 100);
    assert_eq!(rep.total.proof_size, 500);
}

#[test]
fn two_runs_on_one_snapshot_decode_identical_reports() {
    let cmd = default_command();
    let raw = report_bytes((100, 50), (1000, 500));
    let r1 = run(
        &cmd,
        success(raw.clone(), &[7; 32]),
        Some(success(raw.clone(), &[7; 32])),
    );
    let r2 = run(
        &cmd,
        success(raw.clone(), &[7; 32]),
        Some(success(raw, &[7; 32])),
    );
    assert_eq!(r1, r2);
    assert_eq!(r1.unwrap(), r2.unwrap());
}

#[test]
fn weight_overrun_fails_by_default() {
    let cmd = default_command();
    let raw = report_bytes((2000, 50), (1000, 500));
    let r = run(
        &cmd,
        success(raw.clone(), &[7; 32]),
        Some(success(raw, &[7; 32])),
    );
    assert_eq!(r, Err(UpgradeError::WeightBudgetExceeded));
}

#[test]
fn weight_overrun_is_accepted_when_waived() {
    let cmd = Command { no_weight_warnings: true, ..default_command() };
    let raw = report_bytes((2000, 50), (1000, 500));
    let r = run(
        &cmd,
        success(raw.clone(), &[7; 32]),
        Some(success(raw, &[7; 32])),
    );
    assert!(r.is_ok());
}

#[test]
fn proof_size_overrun_also_fails() {
    let cmd = default_command();
    let raw = report_bytes((100, 900), (1000, 500));
    let r = run(
        &cmd,
        success(raw.clone(), &[7; 32]),
        Some(success(raw, &[7; 32])),
    );
    assert_eq!(r, Err(UpgradeError::WeightBudgetExceeded));
}

#[test]
fn non_idempotent_migration_fails_by_default() {
    let cmd = default_command();
    let raw = report_bytes((100, 50), (1000, 500));
    let r = run(
        &cmd,
        success(raw.clone(), &[7; 32]),
        Some(success(raw, &[8; 32])),
    );
    assert_eq!(r, Err(UpgradeError::NotIdempotent));
}

#[test]
fn non_idempotent_migration_is_accepted_when_unchecked() {
    let cmd = Command { no_idempotency_checks: true, ..default_command() };
    let raw = report_bytes((100, 50), (1000, 500));
    let r = run(&cmd, success(raw, &[7; 32]), None);
    assert!(r.is_ok());
}

#[test]
fn call_failure_is_fatal() {
    let cmd = default_command();
    let r = run(
        &cmd,
        CallOutcome::Failure(CallErrorKind::Trap),
        Some(success(report_bytes((1, 1), (2, 2)), &[7; 32])),
    );
    assert_eq!(r, Err(UpgradeError::Call(CallErrorKind::Trap)));
}

#[test]
fn decode_failure_is_fatal() {
    let cmd = default_command();
    let r = run(
        &cmd,
        success(vec![0xff, 0], &[7; 32]),
        Some(success(vec![0xff, 0], &[7; 32])),
    );
    assert_eq!(r, Err(UpgradeError::DecodeReport));
}

#[test]
fn percentages_floor_the_budget_at_one() {
    let rep = decode_weight_report(&report_bytes((60, 25), (0, 100))).unwrap();
    assert_eq!(ref_time_percent_x100(&rep.consumed, &rep.total), 600000);
    assert_eq!(proof_size_percent_x100(&rep.consumed, &rep.total), 2500);
}

#[test]
fn upgrade_payload_is_the_checks_selector() {
    assert_eq!(upgrade_payload(&UpgradeCheckSelect::Disabled), vec![0]);
    assert_eq!(upgrade_payload(&UpgradeCheckSelect::All), vec![1]);
    assert_eq!(upgrade_payload(&UpgradeCheckSelect::PreAndPost), vec![2]);
    assert_eq!(upgrade_payload(&UpgradeCheckSelect::TryState), vec![3]);
}

#[test]
fn entry_point_names() {
    assert_eq!(EntryPoint::ExecuteBlock.name(), "TryRuntime_execute_block");
    assert_eq!(EntryPoint::RunUpgrade.name(), "TryRuntime_on_runtime_upgrade");
}
