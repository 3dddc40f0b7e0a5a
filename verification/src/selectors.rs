//! The check selectors a command passes into the sandboxed entry points,
//! and their binary encodings.

use vstd::prelude::*;

use crate::scale::{encode_compact_u64, encode_u32_le, spec_compact, spec_le_bytes};

verus! {

/// Which consistency checks run after a replayed block's execution.
pub enum TryStateSelect {
    /// Run no try-state checks.
    Disabled,
    /// Run the try-state checks of every pallet.
    All,
    /// Check the given number of pallets, rotating through them round-robin.
    RoundRobin(u32),
    /// Check exactly the named pallets.
    Only(Vec<Vec<u8>>),
}

/// Which optional checks run around a dry-run upgrade.
#[derive(Clone, Copy, PartialEq, Eq, Structural, Debug)]
pub enum UpgradeCheckSelect {
    /// Perform no checks.
    Disabled,
    /// Perform all checks.
    All,
    /// Perform the pre- and post-upgrade checks only.
    PreAndPost,
    /// Perform the try-state checks only.
    TryState,
}

/// The encoding of a list of byte strings: each item's length and bytes,
/// in order. (The list's own length is written by the caller.)
pub open spec fn spec_names_body(items: Seq<Seq<u8>>) -> Seq<u8>
    decreases items.len(),
{
    if items.len() == 0 {
        Seq::empty()
    } else {
        spec_names_body(items.drop_last()) + spec_compact(items.last().len() as u64) + items.last()
    }
}

/// The encoding of a try-state selector: a variant tag, then the variant's
/// payload.
pub open spec fn spec_try_state_encoding(ts: TryStateSelect) -> Seq<u8> {
    match ts {
        TryStateSelect::Disabled => seq![0u8],
        TryStateSelect::All => seq![1u8],
        TryStateSelect::RoundRobin(n) => seq![2u8] + spec_le_bytes(n as int, 4),
        TryStateSelect::Only(names) => seq![3u8] + spec_compact(names.len() as u64)
            + spec_names_body(names.deep_view()),
    }
}

/// The one-byte encoding of an upgrade-check selector.
pub open spec fn spec_upgrade_check_encoding(c: UpgradeCheckSelect) -> Seq<u8> {
    match c {
        UpgradeCheckSelect::Disabled => seq![0u8],
        UpgradeCheckSelect::All => seq![1u8],
        UpgradeCheckSelect::PreAndPost => seq![2u8],
        UpgradeCheckSelect::TryState => seq![3u8],
    }
}

/// Append the encoding of `ts`.
pub fn encode_try_state_select(ts: &TryStateSelect, out: &mut Vec<u8>)
    ensures
        final(out)@ == old(out)@ + spec_try_state_encoding(*ts),
{
    match ts {
        TryStateSelect::Disabled => {
            out.push(0);
            proof {
                assert(out@ =~= old(out)@ + spec_try_state_encoding(*ts));
            }
        },
        TryStateSelect::All => {
            out.push(1);
            proof {
                assert(out@ =~= old(out)@ + spec_try_state_encoding(*ts));
            }
        },
        TryStateSelect::RoundRobin(n) => {
            out.push(2);
            encode_u32_le(*n, out);
            proof {
                assert(out@ =~= old(out)@ + spec_try_state_encoding(*ts));
            }
        },
        TryStateSelect::Only(names) => {
            out.push(3);
            encode_compact_u64(names.len() as u64, out);
            let ghost mid = out@;
            let mut i: usize = 0;
            while i < names.len()
                invariant
                    i <= names.len(),
                    out@ == mid + spec_names_body(names.deep_view().take(i as int)),
                decreases names.len() - i,
            {
                let name: &Vec<u8> = &names[i];
                encode_compact_u64(name.len() as u64, out);
                let mut j: usize = 0;
                let ghost before_name = out@;
                while j < name.len()
                    invariant
                        i < names.len(),
                        name == names[i as int],
                        j <= name.len(),
                        out@ == before_name + name@.take(j as int),
                    decreases name.len() - j,
                {
                    let b: u8 = name[j];
                    out.push(b);
                    j = j + 1;
                    proof {
                        assert(out@ =~= before_name + name@.take(j as int));
                    }
                }
                i = i + 1;
                proof {
                    let items = names.deep_view();
                    assert(items.take(i as int).drop_last() =~= items.take(i - 1));
                    assert(items.take(i as int).last() == names[i - 1]@);
                    assert(names[i - 1]@.take(names[i - 1]@.len() as int) =~= names[i - 1]@);
                    assert(out@ =~= mid + spec_names_body(items.take(i as int)));
                }
            }
            proof {
                assert(names.deep_view().take(names@.len() as int) =~= names.deep_view());
                assert(out@ =~= old(out)@ + spec_try_state_encoding(*ts));
            }
        },
    }
}

/// The encoding of `c`, as the payload of the upgrade entry point.
pub fn encode_upgrade_check_select(c: &UpgradeCheckSelect, out: &mut Vec<u8>)
    ensures
        final(out)@ == old(out)@ + spec_upgrade_check_encoding(*c),
{
    let tag: u8 = match c {
        UpgradeCheckSelect::Disabled => 0,
        UpgradeCheckSelect::All => 1,
        UpgradeCheckSelect::PreAndPost => 2,
        UpgradeCheckSelect::TryState => 3,
    };
    out.push(tag);
    proof {
        assert(out@ =~= old(out)@ + spec_upgrade_check_encoding(*c));
    }
}

} // verus!
