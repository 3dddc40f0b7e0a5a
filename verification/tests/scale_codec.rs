//! The compact codec against the reference codec.

use parity_scale_codec::{Compact, Decode, Encode};
use try_replay::scale::{decode_compact_u64, encode_bool, encode_compact_u64, encode_u32_le};

fn encode(n: u64) -> Vec<u8> {
    let mut out = Vec::new();
    encode_compact_u64(n, &mut out);
    out
}

const BOUNDARIES: &[u64] = &[
    0,
    1,
    63,
    64,
    16383,
    16384,
    0x3fff_ffff,
    0x4000_0000,
    0xffff_ffff,
    0x1_0000_0000,
    0xff_ffff_ffff,
    0x100_0000_0000,
    0xff_ffff_ffff_ffff,
    0x100_0000_0000_0000,
    u64::MAX,
];

#[test]
fn compact_encoding_matches_reference() {
    for &n in BOUNDARIES {
        assert_eq!(encode(n), Compact(n).encode(), "value {}", n);
    }
}

#[test]
fn compact_round_trip() {
    for &n in BOUNDARIES {
        let bytes = encode(n);
        let (value, used) = decode_compact_u64(&bytes, 0).expect("canonical form decodes");
        assert_eq!(value, n);
        assert_eq!(used, bytes.len());
    }
}

#[test]
fn compact_round_trip_with_trailing_bytes() {
    let mut bytes = encode(16384);
    bytes.push(0xee);
    bytes.push(0xff);
    let (value, used) = decode_compact_u64(&bytes, 0).expect("prefix decodes");
    assert_eq!(value, 16384);
    assert_eq!(used, 4);
}

#[test]
fn non_canonical_forms_are_rejected_like_the_reference() {
    // 0 written in the two-byte form, 100 in the four-byte form, and a
    // four-byte big form whose value fits the four-byte word form.
    let cases: Vec<Vec<u8>> = vec![
        vec![0b01, 0x00],
        vec![0b10, 0x01, 0x00, 0x00],
        vec![0b11, 0x01, 0x00, 0x00, 0x00],
        vec![0b11 + (5 << 2), 0x01, 0x00, 0x00, 0x00, 0x00],
    ];
    for bytes in cases {
        assert!(decode_compact_u64(&bytes, 0).is_none(), "bytes {:?}", bytes);
        assert!(
            <Compact<u64>>::decode(&mut &bytes[..]).is_err(),
            "reference accepts {:?}",
            bytes
        );
    }
}

#[test]
fn truncated_input_is_rejected() {
    for &n in BOUNDARIES {
        let bytes = encode(n);
        for cut in 0..bytes.len() {
            let shorter = bytes[..cut].to_vec();
            assert!(decode_compact_u64(&shorter, 0).is_none());
        }
    }
}

#[test]
fn decode_past_the_end_is_rejected() {
    let bytes = encode(7);
    assert!(decode_compact_u64(&bytes, bytes.len()).is_none());
    assert!(decode_compact_u64(&bytes, bytes.len() + 3).is_none());
}

#[test]
fn bool_and_u32_encodings_match_reference() {
    let mut out = Vec::new();
    encode_bool(true, &mut out);
    encode_bool(false, &mut out);
    assert_eq!(out, vec![1, 0]);
    assert_eq!(out, (true, false).encode());

    let mut le = Vec::new();
    encode_u32_le(0x0a0b0c0d, &mut le);
    assert_eq!(le, 0x0a0b0c0du32.encode());
    assert_eq!(le, vec![0x0d, 0x0c, 0x0b, 0x0a]);
}
