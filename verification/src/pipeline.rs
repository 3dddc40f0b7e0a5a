//! The shared call pipeline: the entry points the engines invoke, the
//! payloads they hand to the sandbox, and the ways a call can fail.
//!
//! The sandboxed executor itself is an external collaborator: the engines
//! build each call's payload here and receive the call's outcome as an
//! event. The pipeline never mutates the execution context; merging a
//! successful call's diff is the engine's own step.

use vstd::prelude::*;

use crate::context::copy_bytes;
use crate::scale::{encode_bool, spec_bool_byte};
use crate::selectors::{
    encode_try_state_select, encode_upgrade_check_select, spec_try_state_encoding,
    spec_upgrade_check_encoding, TryStateSelect, UpgradeCheckSelect,
};

verus! {

/// How a sandboxed call fails.
#[derive(Clone, Copy, PartialEq, Eq, Structural, Debug)]
pub enum CallErrorKind {
    /// The entry point aborted inside the sandbox.
    Trap,
    /// The call returned, but its raw output could not be parsed into the
    /// caller's expected shape.
    Decode,
}

/// The two entry points the engines invoke.
#[derive(Clone, Copy, PartialEq, Eq, Structural, Debug)]
pub enum EntryPoint {
    /// Re-execute one full block against the context's current state.
    ExecuteBlock,
    /// Run the runtime-upgrade migrations once and report their cost.
    RunUpgrade,
}

/// The name under which an entry point is invoked in the sandbox.
pub open spec fn spec_entry_point_name(e: EntryPoint) -> Seq<char> {
    match e {
        EntryPoint::ExecuteBlock => "TryRuntime_execute_block"@,
        EntryPoint::RunUpgrade => "TryRuntime_on_runtime_upgrade"@,
    }
}

impl EntryPoint {
    pub fn name(&self) -> (r: &'static str)
        ensures
            r@ == spec_entry_point_name(*self),
    {
        match self {
            EntryPoint::ExecuteBlock => "TryRuntime_execute_block",
            EntryPoint::RunUpgrade => "TryRuntime_on_runtime_upgrade",
        }
    }
}

/// The payload of the execute-block entry point: the encoded block, the
/// state-root-check flag, a fixed flag that bypasses signature and origin
/// verification, and the try-state selector, in that order.
pub open spec fn spec_execute_block_payload(
    encoded_block: Seq<u8>,
    state_root_check: bool,
    try_state: TryStateSelect,
) -> Seq<u8> {
    encoded_block + spec_bool_byte(state_root_check) + spec_bool_byte(true)
        + spec_try_state_encoding(try_state)
}

/// Build the execute-block payload. Signature checks are always bypassed:
/// replay has no access to the original authors' session keys.
pub fn execute_block_payload(
    encoded_block: &Vec<u8>,
    state_root_check: bool,
    try_state: &TryStateSelect,
) -> (r: Vec<u8>)
    ensures
        r@ == spec_execute_block_payload(encoded_block@, state_root_check, *try_state),
{
    let mut out: Vec<u8> = copy_bytes(encoded_block);
    encode_bool(state_root_check, &mut out);
    encode_bool(true, &mut out);
    encode_try_state_select(try_state, &mut out);
    proof {
        assert(out@ =~= spec_execute_block_payload(encoded_block@, state_root_check, *try_state));
    }
    out
}

/// The payload of the run-upgrade entry point: the checks selector alone.
pub fn upgrade_payload(checks: &UpgradeCheckSelect) -> (r: Vec<u8>)
    ensures
        r@ == spec_upgrade_check_encoding(*checks),
{
    let mut out: Vec<u8> = Vec::new();
    encode_upgrade_check_select(checks, &mut out);
    proof {
        assert(out@ =~= spec_upgrade_check_encoding(*checks));
    }
    out
}

} // verus!
