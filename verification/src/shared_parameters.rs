//! Parameters shared by the replay and dry-run commands.

use vstd::prelude::*;

use crate::context::StateVersion;

verus! {

/// What `str::to_lowercase` returns for a string: a function of its
/// characters alone.
pub uninterp spec fn lower_of(s: Seq<char>) -> Seq<char>;

/// Relies on str::to_lowercase: the result depends on the input's
/// characters alone, by the one fixed case-mapping table.
#[verifier::external_body]
fn lowercase(s: &str) -> (r: String)
    ensures
        r@ == lower_of(s@),
{
    s.to_lowercase()
}

/// Which runtime executes: a compiled module read from the given path, or
/// whatever the remote node or the snapshot already carries.
pub enum Runtime {
    /// Use the module at this path. It must have been compiled with the
    /// try-runtime entry points.
    Path(String),
    /// Use the code of the remote node, or the snapshot. That code rarely
    /// carries the try-runtime entry points, so this is seldom wanted.
    Existing,
}

impl Runtime {
    /// Every string names a runtime: `existing` in any casing selects the
    /// remote's own code, and anything else is a path, taken in its
    /// lowercased spelling.
    pub fn from_str(s: &str) -> (r: Result<Runtime, String>)
        ensures
            r matches Ok(rt) && (if lower_of(s@) == "existing"@ {
                rt == Runtime::Existing
            } else {
                rt matches Runtime::Path(p) && p@ == lower_of(s@)
            }),
    {
        let lowered: String = lowercase(s);
        let existing: String = "existing".to_owned();
        if lowered == existing {
            Ok(Runtime::Existing)
        } else {
            Ok(Runtime::Path(lowered))
        }
    }
}

/// The parameters both commands share. How the host process configures its
/// sandbox (execution method, instantiation strategy) stays with the host;
/// the engines only read what their decisions need.
pub struct SharedParams {
    /// The runtime to execute.
    pub runtime: Runtime,
    /// How many 64 KiB pages the sandbox allocates, when overridden.
    pub heap_pages: Option<u64>,
    /// Where proofs are exported: a directory of per-block files for
    /// replay, one file for a dry run. Absent: no proof is recorded.
    pub export_proof: Option<String>,
    /// Overwrite the state-encoding version instead of taking the
    /// snapshot's or remote's own.
    pub overwrite_state_version: Option<StateVersion>,
}

} // verus!
