//! The compact integer grammar of the runtime's binary encoding.
//!
//! A `u64` is written in one of four self-describing forms, chosen by the
//! low two bits of the first byte: a single byte for values below `2^6`, a
//! two-byte little-endian word for values below `2^14`, a four-byte word for
//! values below `2^30`, and otherwise a length byte followed by the value's
//! minimal little-endian bytes. Each value has exactly one well-formed
//! encoding; the decoder accepts that encoding and nothing else.

use vstd::prelude::*;

verus! {

/// `256^k`.
pub open spec fn pow256(k: nat) -> int
    decreases k,
{
    if k == 0 {
        1
    } else {
        256 * pow256((k - 1) as nat)
    }
}

/// The value of a little-endian byte string.
pub open spec fn le_value(s: Seq<u8>) -> int
    decreases s.len(),
{
    if s.len() == 0 {
        0
    } else {
        s[0] + 256 * le_value(s.drop_first())
    }
}

/// The `len` little-endian bytes of `v`.
pub open spec fn spec_le_bytes(v: int, len: nat) -> Seq<u8>
    decreases len,
{
    if len == 0 {
        Seq::empty()
    } else {
        seq![(v % 256) as u8] + spec_le_bytes(v / 256, (len - 1) as nat)
    }
}

/// How many bytes the big form spends on a value: the least count that
/// holds it, never fewer than four.
pub open spec fn spec_big_len(n: u64) -> nat {
    if n < 0x1_0000_0000 {
        4
    } else if n < 0x100_0000_0000 {
        5
    } else if n < 0x1_0000_0000_0000 {
        6
    } else if n < 0x100_0000_0000_0000 {
        7
    } else {
        8
    }
}

/// The unique compact encoding of `n`.
pub open spec fn spec_compact(n: u64) -> Seq<u8> {
    if n < 64 {
        seq![(4 * n) as u8]
    } else if n < 16384 {
        spec_le_bytes(4 * n + 1, 2)
    } else if n < 0x4000_0000 {
        spec_le_bytes(4 * n + 2, 4)
    } else {
        seq![(3 + 4 * (spec_big_len(n) - 4)) as u8] + spec_le_bytes(n as int, spec_big_len(n))
    }
}

/// Whether `s` carries the compact encoding of `n` at position `i`.
pub open spec fn compact_at(s: Seq<u8>, i: int, n: u64) -> bool {
    &&& 0 <= i
    &&& i + spec_compact(n).len() <= s.len()
    &&& s.subrange(i, i + spec_compact(n).len()) == spec_compact(n)
}

proof fn lemma_pow256_pos(k: nat)
    ensures
        pow256(k) >= 1,
    decreases k,
{
    if k > 0 {
        lemma_pow256_pos((k - 1) as nat);
    }
}

/// A little-endian string of `k` bytes holds a value below `256^k`.
proof fn lemma_le_value_bound(s: Seq<u8>)
    ensures
        0 <= le_value(s) < pow256(s.len()),
    decreases s.len(),
{
    if s.len() == 0 {
    } else {
        lemma_le_value_bound(s.drop_first());
    }
}

/// Writing `v` in `len` little-endian bytes and reading them back yields `v`.
proof fn lemma_le_bytes_value(v: int, len: nat)
    requires
        0 <= v < pow256(len),
    ensures
        spec_le_bytes(v, len).len() == len,
        le_value(spec_le_bytes(v, len)) == v,
    decreases len,
{
    if len == 0 {
    } else {
        lemma_pow256_pos((len - 1) as nat);
        lemma_le_bytes_value(v / 256, (len - 1) as nat);
        let s = spec_le_bytes(v, len);
        assert(s.drop_first() =~= spec_le_bytes(v / 256, (len - 1) as nat));
    }
}

/// A byte string of at most eight bytes is the little-endian spelling of its
/// own value.
proof fn lemma_le_bytes_of_value(s: Seq<u8>)
    ensures
        spec_le_bytes(le_value(s), s.len()) =~= s,
    decreases s.len(),
{
    if s.len() == 0 {
    } else {
        lemma_le_bytes_of_value(s.drop_first());
        lemma_le_value_bound(s.drop_first());
        let v = le_value(s);
        assert(v % 256 == s[0] && v / 256 == le_value(s.drop_first())) by {
            vstd::arithmetic::div_mod::lemma_fundamental_div_mod_converse(
                v,
                256,
                le_value(s.drop_first()),
                s[0] as int,
            );
        }
        assert(spec_le_bytes(v, s.len()) =~= s);
    }
}

/// The first byte of a compact encoding names its form: the low two bits
/// give the mode, and in the big form the remaining bits give the length.
proof fn lemma_compact_shape(n: u64)
    ensures
        spec_compact(n).len() >= 1,
        n < 64 ==> spec_compact(n).len() == 1 && spec_compact(n)[0] == 4 * n,
        64 <= n < 16384 ==> spec_compact(n).len() == 2 && le_value(spec_compact(n)) == 4 * n + 1,
        16384 <= n < 0x4000_0000 ==> spec_compact(n).len() == 4 && le_value(spec_compact(n)) == 4
            * n + 2,
        n >= 0x4000_0000 ==> spec_compact(n).len() == 1 + spec_big_len(n) && spec_compact(n)[0]
            == 3 + 4 * (spec_big_len(n) - 4) && le_value(spec_compact(n).drop_first()) == n,
        spec_compact(n)[0] % 4 == (if n < 64 {
            0int
        } else if n < 16384 {
            1int
        } else if n < 0x4000_0000 {
            2int
        } else {
            3int
        }),
{
    if n < 64 {
    } else if n < 16384 {
        assert(pow256(2) == 65536) by {
            reveal_with_fuel(pow256, 3);
        }
        lemma_le_bytes_value(4 * n + 1, 2);
        let s = spec_compact(n);
        assert(s[0] == (4 * n + 1) % 256);
        assert((4 * n + 1) % 256 % 4 == 1) by {
            vstd::arithmetic::div_mod::lemma_fundamental_div_mod(4 * n + 1, 256);
            let q = (4 * n + 1) / 256;
            assert((4 * n + 1) % 256 == 4 * (n - 64 * q) + 1);
        }
    } else if n < 0x4000_0000 {
        assert(pow256(4) == 0x1_0000_0000) by {
            reveal_with_fuel(pow256, 5);
        }
        lemma_le_bytes_value(4 * n + 2, 4);
        let s = spec_compact(n);
        assert(s[0] == (4 * n + 2) % 256);
        assert((4 * n + 2) % 256 % 4 == 2) by {
            vstd::arithmetic::div_mod::lemma_fundamental_div_mod(4 * n + 2, 256);
            let q = (4 * n + 2) / 256;
            assert((4 * n + 2) % 256 == 4 * (n - 64 * q) + 2);
        }
    } else {
        assert(pow256(spec_big_len(n)) > n) by {
            reveal_with_fuel(pow256, 9);
        }
        lemma_le_bytes_value(n as int, spec_big_len(n));
        let s = spec_compact(n);
        assert(s.drop_first() =~= spec_le_bytes(n as int, spec_big_len(n)));
    }
}

/// No compact encoding is a proper prefix of another: two encodings that
/// open the same byte string encode the same value.
pub proof fn lemma_compact_prefix_free(s: Seq<u8>, i: int, a: u64, b: u64)
    requires
        compact_at(s, i, a),
        compact_at(s, i, b),
    ensures
        a == b,
{
    lemma_compact_shape(a);
    lemma_compact_shape(b);
    let sa = spec_compact(a);
    let sb = spec_compact(b);
    assert(sa[0] == s[i] && sb[0] == s[i]);
    assert(sa[0] % 4 == sb[0] % 4);
    if a >= 0x4000_0000 && b >= 0x4000_0000 {
        assert(spec_big_len(a) == spec_big_len(b));
    }
    assert(sa.len() == sb.len());
    assert(sa =~= sb);
    if a < 64 {
    } else if a < 16384 {
        assert(4 * a + 1 == 4 * b + 1);
    } else if a < 0x4000_0000 {
        assert(4 * a + 2 == 4 * b + 2);
    } else {
        assert(le_value(sa.drop_first()) == le_value(sb.drop_first()));
    }
}

/// Append the `len` little-endian bytes of `v`.
fn push_le_bytes(out: &mut Vec<u8>, v: u64, len: usize)
    requires
        len <= 8,
        v < pow256(len as nat),
    ensures
        final(out)@ == old(out)@ + spec_le_bytes(v as int, len as nat),
    decreases len,
{
    if len == 0 {
        proof {
            assert(out@ =~= old(out)@ + spec_le_bytes(v as int, 0));
        }
    } else {
        proof {
            lemma_pow256_pos((len - 1) as nat);
            assert(v / 256 < pow256((len - 1) as nat)) by (nonlinear_arith)
                requires
                    v < 256 * pow256((len - 1) as nat),
                    pow256((len - 1) as nat) >= 1,
            ;
        }
        out.push((v % 256) as u8);
        push_le_bytes(out, v / 256, len - 1);
        proof {
            assert(out@ =~= old(out)@ + spec_le_bytes(v as int, len as nat));
        }
    }
}

/// Append the compact encoding of `n`.
pub fn encode_compact_u64(n: u64, out: &mut Vec<u8>)
    ensures
        final(out)@ == old(out)@ + spec_compact(n),
{
    proof {
        assert(pow256(2) == 65536 && pow256(4) == 0x1_0000_0000) by {
            reveal_with_fuel(pow256, 5);
        }
    }
    if n < 64 {
        out.push((n as u8) * 4);
        proof {
            assert(out@ =~= old(out)@ + spec_compact(n));
        }
    } else if n < 16384 {
        push_le_bytes(out, 4 * n + 1, 2);
    } else if n < 0x4000_0000 {
        push_le_bytes(out, 4 * n + 2, 4);
    } else {
        let big_len: usize = if n < 0x1_0000_0000 {
            4
        } else if n < 0x100_0000_0000 {
            5
        } else if n < 0x1_0000_0000_0000 {
            6
        } else if n < 0x100_0000_0000_0000 {
            7
        } else {
            8
        };
        out.push(3 + 4 * ((big_len as u8) - 4));
        proof {
            assert(n < pow256(big_len as nat)) by {
                reveal_with_fuel(pow256, 9);
            }
        }
        push_le_bytes(out, n, big_len);
        proof {
            assert(out@ =~= old(out)@ + spec_compact(n));
        }
    }
}

/// Read `len` bytes at `start` as a little-endian value.
fn read_le(bytes: &Vec<u8>, start: usize, len: usize) -> (r: u64)
    requires
        start + len <= bytes.len(),
        len <= 8,
    ensures
        r == le_value(bytes@.subrange(start as int, start + len)),
        r < pow256(len as nat),
    decreases len,
{
    let ghost s = bytes@.subrange(start as int, start + len);
    if len == 0 {
        proof {
            assert(s =~= Seq::<u8>::empty());
        }
        0
    } else {
        let rest: u64 = read_le(bytes, start + 1, len - 1);
        proof {
            assert(s.drop_first() =~= bytes@.subrange(start + 1, start + len));
            assert(pow256(len as nat) == 256 * pow256((len - 1) as nat));
            assert(pow256(len as nat) <= pow256(8)) by {
                reveal_with_fuel(pow256, 9);
            }
            assert(pow256(8) == 0x1_0000_0000_0000_0000) by {
                reveal_with_fuel(pow256, 9);
            }
            assert((bytes@[start as int] as int) + 256 * (rest as int) < pow256(len as nat))
                by (nonlinear_arith)
                requires
                    (bytes@[start as int] as int) < 256,
                    (rest as int) < pow256((len - 1) as nat),
                    pow256(len as nat) == 256 * pow256((len - 1) as nat),
            ;
        }
        let b: u64 = bytes[start] as u64;
        b + 256 * rest
    }
}

/// Decode one compact `u64` at `start`. Returns the value and the position
/// just past its encoding, or `None` when no value's encoding starts there:
/// the decoder succeeds exactly on the well-formed, minimal form.
pub fn decode_compact_u64(bytes: &Vec<u8>, start: usize) -> (r: Option<(u64, usize)>)
    ensures
        (match r {
            Some((n, next)) => start + spec_compact(n).len() == next && compact_at(
                bytes@,
                start as int,
                n,
            ),
            None => forall|n: u64| !compact_at(bytes@, start as int, n),
        }),
{
    if start >= bytes.len() {
        proof {
            assert forall|n: u64| !compact_at(bytes@, start as int, n) by {
                lemma_compact_shape(n);
            }
        }
        return None;
    }
    let b0: u8 = bytes[start];
    let mode: u8 = b0 % 4;
    if mode == 0 {
        let n: u64 = (b0 / 4) as u64;
        proof {
            lemma_compact_shape(n);
            assert(bytes@.subrange(start as int, start + 1) =~= spec_compact(n));
        }
        Some((n, start + 1))
    } else if mode == 1 {
        if bytes.len() - start < 2 {
            proof {
                assert forall|n: u64| !compact_at(bytes@, start as int, n) by {
                    lemma_compact_shape(n);
                    if compact_at(bytes@, start as int, n) {
                        assert(spec_compact(n)[0] == b0);
                    }
                }
            }
            return None;
        }
        let v: u64 = read_le(bytes, start, 2);
        let n: u64 = v / 4;
        let ghost pre = bytes@.subrange(start as int, start + 2);
        proof {
            lemma_le_bytes_of_value(pre);
            assert(v % 4 == 1) by {
                assert(pre[0] == b0);
                lemma_le_value_bound(pre.drop_first());
                vstd::arithmetic::div_mod::lemma_fundamental_div_mod_converse(
                    v as int,
                    256,
                    le_value(pre.drop_first()),
                    b0 as int,
                );
                vstd::arithmetic::div_mod::lemma_fundamental_div_mod(v as int, 256);
                let q = v / 256;
                assert(b0 == v - 256 * q);
            }
            assert(v == 4 * n + 1);
        }
        if n > 63 && n < 16384 {
            proof {
                lemma_compact_shape(n);
                assert(pre =~= spec_le_bytes(v as int, 2)) by {
                    lemma_le_value_bound(pre);
                    lemma_le_bytes_of_value(pre);
                }
            }
            Some((n, start + 2))
        } else {
            proof {
                assert forall|m: u64| !compact_at(bytes@, start as int, m) by {
                    lemma_compact_shape(m);
                    if compact_at(bytes@, start as int, m) {
                        assert(spec_compact(m)[0] == b0);
                        assert(64 <= m < 16384);
                        assert(bytes@.subrange(start as int, start + 2) =~= spec_compact(m));
                        assert(le_value(pre) == 4 * m + 1);
                        assert(m == n);
                    }
                }
            }
            None
        }
    } else if mode == 2 {
        if bytes.len() - start < 4 {
            proof {
                assert forall|n: u64| !compact_at(bytes@, start as int, n) by {
                    lemma_compact_shape(n);
                    if compact_at(bytes@, start as int, n) {
                        assert(spec_compact(n)[0] == b0);
                    }
                }
            }
            return None;
        }
        let v: u64 = read_le(bytes, start, 4);
        let n: u64 = v / 4;
        let ghost pre = bytes@.subrange(start as int, start + 4);
        proof {
            lemma_le_bytes_of_value(pre);
            assert(v % 4 == 2) by {
                assert(pre[0] == b0);
                lemma_le_value_bound(pre.drop_first());
                vstd::arithmetic::div_mod::lemma_fundamental_div_mod_converse(
                    v as int,
                    256,
                    le_value(pre.drop_first()),
                    b0 as int,
                );
                vstd::arithmetic::div_mod::lemma_fundamental_div_mod(v as int, 256);
                let q = v / 256;
                assert(b0 == v - 256 * q);
            }
            assert(v == 4 * n + 2);
        }
        if n > 16383 && n < 0x4000_0000 {
            proof {
                lemma_compact_shape(n);
                assert(pre =~= spec_le_bytes(v as int, 4)) by {
                    lemma_le_bytes_of_value(pre);
                }
            }
            Some((n, start + 4))
        } else {
            proof {
                assert forall|m: u64| !compact_at(bytes@, start as int, m) by {
                    lemma_compact_shape(m);
                    if compact_at(bytes@, start as int, m) {
                        assert(spec_compact(m)[0] == b0);
                        assert(16384 <= m < 0x4000_0000);
                        assert(bytes@.subrange(start as int, start + 4) =~= spec_compact(m));
                        assert(le_value(pre) == 4 * m + 2);
                        assert(m == n);
                    }
                }
            }
            None
        }
    } else {
        let big_len: usize = (b0 / 4) as usize + 4;
        if big_len > 8 || bytes.len() - start < 1 + big_len {
            proof {
                assert forall|n: u64| !compact_at(bytes@, start as int, n) by {
                    lemma_compact_shape(n);
                    if compact_at(bytes@, start as int, n) {
                        assert(spec_compact(n)[0] == b0);
                        assert(n >= 0x4000_0000);
                        assert(b0 / 4 == spec_big_len(n) - 4);
                    }
                }
            }
            return None;
        }
        let v: u64 = read_le(bytes, start + 1, big_len);
        let minimal: bool = if big_len == 4 {
            v >= 0x4000_0000 && v < 0x1_0000_0000
        } else if big_len == 5 {
            v >= 0x1_0000_0000
        } else if big_len == 6 {
            v >= 0x100_0000_0000
        } else if big_len == 7 {
            v >= 0x1_0000_0000_0000
        } else {
            v >= 0x100_0000_0000_0000
        };
        let ghost payload = bytes@.subrange(start + 1, start + 1 + big_len);
        proof {
            lemma_le_value_bound(payload);
            assert(pow256(4) == 0x1_0000_0000 && pow256(5) == 0x100_0000_0000 && pow256(6)
                == 0x1_0000_0000_0000 && pow256(7) == 0x100_0000_0000_0000) by {
                reveal_with_fuel(pow256, 9);
            }
        }
        if minimal {
            proof {
                lemma_compact_shape(v);
                assert(spec_big_len(v) == big_len);
                lemma_le_bytes_of_value(payload);
                assert(bytes@.subrange(start as int, start + 1 + big_len) =~= spec_compact(v));
            }
            Some((v, start + 1 + big_len))
        } else {
            proof {
                assert forall|m: u64| !compact_at(bytes@, start as int, m) by {
                    lemma_compact_shape(m);
                    if compact_at(bytes@, start as int, m) {
                        assert(spec_compact(m)[0] == b0);
                        assert(m >= 0x4000_0000);
                        assert(spec_big_len(m) == big_len);
                        assert(bytes@.subrange(start as int, start + 1 + big_len) =~= spec_compact(
                            m,
                        ));
                        assert(spec_compact(m).drop_first() =~= payload);
                        assert(le_value(payload) == m);
                    }
                }
            }
            None
        }
    }
}

/// The one-byte encoding of a boolean.
pub open spec fn spec_bool_byte(b: bool) -> Seq<u8> {
    if b {
        seq![1u8]
    } else {
        seq![0u8]
    }
}

/// Append the one-byte encoding of `b`.
pub fn encode_bool(b: bool, out: &mut Vec<u8>)
    ensures
        final(out)@ == old(out)@ + spec_bool_byte(b),
{
    if b {
        out.push(1);
    } else {
        out.push(0);
    }
    proof {
        assert(out@ =~= old(out)@ + spec_bool_byte(b));
    }
}

/// Append the four little-endian bytes of `v`.
pub fn encode_u32_le(v: u32, out: &mut Vec<u8>)
    ensures
        final(out)@ == old(out)@ + spec_le_bytes(v as int, 4),
{
    proof {
        assert(pow256(4) == 0x1_0000_0000) by {
            reveal_with_fuel(pow256, 5);
        }
    }
    push_le_bytes(out, v as u64, 4);
}

} // verus!
