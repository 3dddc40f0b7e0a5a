//! The replay engine over recorded event traces.

use try_replay::context::{ExecutionContext, KeyMutation, StateVersion, StorageDiff};
use try_replay::follow_chain::{
    live_anchor, run, BlockFetchError, Command, FinalizedHeader, ReplayAction, ReplayEngine,
    ReplayEvent, SkipReason,
};
use try_replay::selectors::TryStateSelect;

fn command() -> Command {
    Command {
        uri: String::from("ws://127.0.0.1:9944"),
        state_root_check: true,
        try_state: TryStateSelect::All,
        keep_connection: false,
    }
}

fn header(number: u64) -> FinalizedHeader {
    FinalizedHeader {
        hash: vec![number as u8; 32],
        parent_hash: vec![number as u8 - 1; 32],
        number,
    }
}

fn diff(root_byte: u8) -> StorageDiff {
    StorageDiff { transaction_root: vec![root_byte; 32], mutations: Vec::new() }
}

fn context(root_byte: u8) -> ExecutionContext {
    ExecutionContext::new(vec![root_byte; 32], StateVersion::V1, vec![0; 32])
}

#[test]
fn single_block_replay_reaches_the_expected_root() {
    let expected_root = vec![0xaa; 32];
    let mut engine = ReplayEngine::new(command(), false);
    let events = vec![
        ReplayEvent::HeaderFinalized(header(1)),
        ReplayEvent::BlockFetched { encoded_block: vec![1, 2, 3] },
        ReplayEvent::ContextReady(context(0)),
        ReplayEvent::CallSucceeded(StorageDiff {
            transaction_root: expected_root.clone(),
            mutations: Vec::new(),
        }),
    ];
    let actions = run(&mut engine, events);
    assert_eq!(actions.len(), 4);
    assert_eq!(engine.merges, 1);
    assert_eq!(engine.context.as_ref().unwrap().root, expected_root);
    assert_eq!(engine.roots, vec![expected_root]);
}

#[test]
fn ten_headers_with_one_format_mismatch_executes_the_other_nine() {
    let mut engine = ReplayEngine::new(command(), false);
    let mut events = Vec::new();
    for n in 1..=10u64 {
        events.push(ReplayEvent::HeaderFinalized(header(n)));
        if n == 5 {
            events.push(ReplayEvent::BlockFetchFailed(BlockFetchError::FormatMismatch));
            continue;
        }
        events.push(ReplayEvent::BlockFetched { encoded_block: vec![n as u8] });
        if n == 1 {
            events.push(ReplayEvent::ContextReady(context(0)));
        }
        events.push(ReplayEvent::CallSucceeded(diff(n as u8)));
    }
    events.push(ReplayEvent::StreamClosed);
    let actions = run(&mut engine, events);

    assert_eq!(engine.merges, 9);
    let expected_roots: Vec<Vec<u8>> = [1u64, 2, 3, 4, 6, 7, 8, 9, 10]
        .iter()
        .map(|&n| vec![n as u8; 32])
        .collect();
    assert_eq!(engine.roots, expected_roots);

    // The mismatch is classified distinctly, and the run still ends well.
    let skip = actions
        .iter()
        .find(|a| matches!(a, ReplayAction::Skip { .. }))
        .expect("one header was skipped");
    assert!(matches!(
        skip,
        ReplayAction::Skip { number: 5, reason: SkipReason::FormatMismatch }
    ));
    assert!(engine.outcome().is_ok());
}

#[test]
fn failed_call_skips_without_touching_the_context() {
    let mut engine = ReplayEngine::new(command(), false);
    let events = vec![
        ReplayEvent::HeaderFinalized(header(1)),
        ReplayEvent::BlockFetched { encoded_block: vec![1] },
        ReplayEvent::ContextReady(context(3)),
        ReplayEvent::CallFailed(try_replay::pipeline::CallErrorKind::Trap),
        ReplayEvent::StreamClosed,
    ];
    let actions = run(&mut engine, events);
    assert_eq!(engine.merges, 0);
    assert_eq!(engine.context.as_ref().unwrap().root, vec![3; 32]);
    assert!(matches!(
        actions[3],
        ReplayAction::Skip {
            number: 1,
            reason: SkipReason::Call(try_replay::pipeline::CallErrorKind::Trap),
        }
    ));
    assert!(engine.outcome().is_ok());
}

#[test]
fn context_failure_is_fatal() {
    let mut engine = ReplayEngine::new(command(), false);
    let events = vec![
        ReplayEvent::HeaderFinalized(header(1)),
        ReplayEvent::BlockFetched { encoded_block: vec![1] },
        ReplayEvent::ContextFailed,
    ];
    let actions = run(&mut engine, events);
    assert!(matches!(actions[2], ReplayAction::Failed));
    assert!(engine.outcome().is_err());
}

#[test]
fn context_is_anchored_at_the_parent_hash() {
    let mut engine = ReplayEngine::new(command(), false);
    let h = FinalizedHeader { hash: vec![0x10; 32], parent_hash: vec![0xab, 0x01], number: 16 };
    let a1 = engine.step(ReplayEvent::HeaderFinalized(h));
    assert!(matches!(a1, ReplayAction::FetchBlock { ref hash } if hash == &vec![0x10; 32]));
    let a2 = engine.step(ReplayEvent::BlockFetched { encoded_block: vec![9] });
    match a2 {
        ReplayAction::BuildContext { anchor } => assert_eq!(anchor, "ab01"),
        _ => panic!("expected a context build"),
    }
}

#[test]
fn execute_payload_carries_block_flags_and_selector() {
    let mut engine = ReplayEngine::new(command(), true);
    engine.step(ReplayEvent::HeaderFinalized(header(4)));
    engine.step(ReplayEvent::BlockFetched { encoded_block: vec![9, 9] });
    let a = engine.step(ReplayEvent::ContextReady(context(0)));
    match a {
        ReplayAction::Execute { payload, export_block } => {
            // block bytes, state-root-check flag, fixed signature bypass,
            // try-state selector (all).
            assert_eq!(payload, vec![9, 9, 1, 1, 1]);
            assert_eq!(export_block, Some(4));
        },
        _ => panic!("expected an execution"),
    }
}

#[test]
fn hex_anchor_spelling() {
    assert_eq!(live_anchor(&vec![]), "");
    assert_eq!(live_anchor(&vec![0x00, 0x0f, 0xf0, 0xff]), "000ff0ff");
    assert_eq!(live_anchor(&vec![0x12, 0x34, 0xab, 0xcd]), "1234abcd");
}

#[test]
fn merged_mutations_overlay_with_last_write_winning() {
    let mut ctx = context(0);
    ctx.merge(StorageDiff {
        transaction_root: vec![1; 32],
        mutations: vec![
            KeyMutation { key: b"alpha".to_vec(), value: Some(vec![1]) },
            KeyMutation { key: b"beta".to_vec(), value: Some(vec![2]) },
        ],
    });
    ctx.merge(StorageDiff {
        transaction_root: vec![2; 32],
        mutations: vec![
            KeyMutation { key: b"alpha".to_vec(), value: Some(vec![9]) },
            KeyMutation { key: b"beta".to_vec(), value: None },
        ],
    });
    assert_eq!(ctx.root, vec![2; 32]);
    // Last write wins; a deletion is remembered; untouched keys are absent.
    assert_eq!(ctx.store.get(&b"alpha".to_vec()), Some(&Some(vec![9])));
    assert_eq!(ctx.store.get(&b"beta".to_vec()), Some(&None));
    assert_eq!(ctx.store.get(&b"gamma".to_vec()), None);
}
