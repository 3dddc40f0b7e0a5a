//! Selector encodings against the reference codec, and runtime selection.

use parity_scale_codec::Encode;
use try_replay::selectors::{encode_try_state_select, TryStateSelect};
use try_replay::Runtime;

fn encode(ts: &TryStateSelect) -> Vec<u8> {
    let mut out = Vec::new();
    encode_try_state_select(ts, &mut out);
    out
}

#[test]
fn unit_selectors_encode_to_their_tags() {
    assert_eq!(encode(&TryStateSelect::Disabled), vec![0]);
    assert_eq!(encode(&TryStateSelect::All), vec![1]);
}

#[test]
fn round_robin_carries_its_count() {
    assert_eq!(encode(&TryStateSelect::RoundRobin(7)), vec![2, 7, 0, 0, 0]);
    let mut expected = vec![2u8];
    expected.extend(0x01020304u32.encode());
    assert_eq!(encode(&TryStateSelect::RoundRobin(0x01020304)), expected);
}

#[test]
fn pallet_list_encodes_like_the_reference() {
    let names: Vec<Vec<u8>> = vec![b"Staking".to_vec(), b"System".to_vec()];
    let mine = encode(&TryStateSelect::Only(names.clone()));
    let mut expected = vec![3u8];
    expected.extend(names.encode());
    assert_eq!(mine, expected);
}

#[test]
fn empty_pallet_list() {
    let mine = encode(&TryStateSelect::Only(Vec::new()));
    assert_eq!(mine, vec![3, 0]);
}

#[test]
fn runtime_existing_in_any_casing() {
    assert!(matches!(Runtime::from_str("existing"), Ok(Runtime::Existing)));
    assert!(matches!(Runtime::from_str("Existing"), Ok(Runtime::Existing)));
    assert!(matches!(Runtime::from_str("EXISTING"), Ok(Runtime::Existing)));
}

#[test]
fn runtime_anything_else_is_a_path() {
    match Runtime::from_str("Some/Path.WASM") {
        Ok(Runtime::Path(p)) => assert_eq!(p, "some/path.wasm"),
        _ => panic!("expected a path"),
    }
    match Runtime::from_str("runtime.compact.compressed.wasm") {
        Ok(Runtime::Path(p)) => assert_eq!(p, "runtime.compact.compressed.wasm"),
        _ => panic!("expected a path"),
    }
}
