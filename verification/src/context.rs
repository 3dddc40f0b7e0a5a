//! The execution context: the engine-owned view of the sandboxed state.

use vstd::prelude::*;

verus! {

/// The state-encoding version a context's storage diffs are extracted with.
/// It is recorded once, when the context is created, and never changes,
/// even if a replayed block upgrades the live chain's version mid-run.
#[derive(Clone, Copy, PartialEq, Eq, Structural, Debug)]
pub enum StateVersion {
    V0,
    V1,
}

/// One key mutation of a storage diff: a write of `value`, or a removal
/// when `value` is absent.
pub struct KeyMutation {
    pub key: Vec<u8>,
    pub value: Option<Vec<u8>>,
}

/// The state changes produced by one successful sandboxed call: the root the
/// backend transaction commits to, and the ordered key mutations behind it.
/// A diff exists only for a successful call and is merged exactly once.
pub struct StorageDiff {
    pub transaction_root: Vec<u8>,
    pub mutations: Vec<KeyMutation>,
}


/// What one merged mutation leaves at its key: a value, or a deletion.
pub open spec fn spec_mutation_value(value: Option<Vec<u8>>) -> Option<Seq<u8>> {
    match value {
        Option::Some(v) => Option::Some(v@),
        Option::None => Option::None,
    }
}

/// The overlay after applying `muts` in order to `m`: later mutations of a
/// key win, and a deletion is remembered.
pub open spec fn spec_apply(
    m: Map<Seq<u8>, Option<Seq<u8>>>,
    muts: Seq<KeyMutation>,
) -> Map<Seq<u8>, Option<Seq<u8>>>
    decreases muts.len(),
{
    if muts.len() == 0 {
        m
    } else {
        spec_apply(m, muts.drop_last()).insert(
            muts.last().key@,
            spec_mutation_value(muts.last().value),
        )
    }
}

/// The key writes and deletions the engine has merged so far, overlaying
/// the anchored base state (which the trie backend owns). Viewed as the map
/// from each touched key to its latest write, deletions remembered.
pub struct StorageOverlay {
    journal: Vec<KeyMutation>,
}

impl View for StorageOverlay {
    type V = Map<Seq<u8>, Option<Seq<u8>>>;

    closed spec fn view(&self) -> Map<Seq<u8>, Option<Seq<u8>>> {
        spec_apply(Map::empty(), self.journal@)
    }
}

/// Applying mutation lists one after the other applies their concatenation.
proof fn lemma_apply_append(
    m: Map<Seq<u8>, Option<Seq<u8>>>,
    a: Seq<KeyMutation>,
    b: Seq<KeyMutation>,
)
    ensures
        spec_apply(m, a + b) == spec_apply(spec_apply(m, a), b),
    decreases b.len(),
{
    if b.len() == 0 {
        assert(a + b =~= a);
    } else {
        lemma_apply_append(m, a, b.drop_last());
        assert((a + b).drop_last() =~= a + b.drop_last());
    }
}

/// An overlay holds a key exactly when some journal entry touched it, and
/// its value there is the last such entry's.
proof fn lemma_apply_lookup(muts: Seq<KeyMutation>, k: Seq<u8>, i: int)
    requires
        0 <= i < muts.len(),
        muts[i].key@ == k,
        forall|j: int| i < j < muts.len() ==> muts[j].key@ != k,
    ensures
        spec_apply(Map::empty(), muts).contains_key(k),
        spec_apply(Map::empty(), muts)[k] == spec_mutation_value(muts[i].value),
    decreases muts.len(),
{
    if i + 1 == muts.len() {
    } else {
        assert(muts.drop_last()[i] == muts[i]);
        lemma_apply_lookup(muts.drop_last(), k, i);
    }
}

/// A key no journal entry touched is absent from the overlay.
proof fn lemma_apply_absent(muts: Seq<KeyMutation>, k: Seq<u8>)
    requires
        forall|j: int| 0 <= j < muts.len() ==> muts[j].key@ != k,
    ensures
        !spec_apply(Map::empty(), muts).contains_key(k),
    decreases muts.len(),
{
    if muts.len() > 0 {
        lemma_apply_absent(muts.drop_last(), k);
    }
}

impl StorageOverlay {
    /// A fresh overlay: nothing written yet.
    pub fn new() -> (r: StorageOverlay)
        ensures
            r@ == Map::<Seq<u8>, Option<Seq<u8>>>::empty(),
    {
        StorageOverlay { journal: Vec::new() }
    }

    /// Append a diff's mutations, in order. The moved-out list is emptied.
    pub fn apply(&mut self, mutations: &mut Vec<KeyMutation>)
        ensures
            final(self)@ == spec_apply(old(self)@, old(mutations)@),
            final(mutations)@ == Seq::<KeyMutation>::empty(),
    {
        proof {
            lemma_apply_append(Map::empty(), self.journal@, mutations@);
        }
        self.journal.append(mutations);
    }

    /// The latest write of `key`: `None` when the run never touched it,
    /// otherwise the value the last mutation left (a deletion shows as a
    /// held `None`).
    pub fn get(&self, key: &Vec<u8>) -> (r: Option<&Option<Vec<u8>>>)
        ensures
            (match r {
                Option::Some(v) => self@.contains_key(key@) && self@[key@]
                    == spec_mutation_value(*v),
                Option::None => !self@.contains_key(key@),
            }),
    {
        let mut i: usize = self.journal.len();
        while i > 0
            invariant
                i <= self.journal.len(),
                forall|j: int| i <= j < self.journal@.len() ==> self.journal@[j].key@ != key@,
            decreases i,
        {
            i = i - 1;
            let entry = &self.journal[i];
            if bytes_equal(&entry.key, key) {
                proof {
                    lemma_apply_lookup(self.journal@, key@, i as int);
                }
                return Some(&entry.value);
            }
        }
        proof {
            lemma_apply_absent(self.journal@, key@);
        }
        None
    }
}

/// Whether two byte strings are equal.
pub fn bytes_equal(a: &Vec<u8>, b: &Vec<u8>) -> (r: bool)
    ensures
        r == (a@ == b@),
{
    if a.len() != b.len() {
        return false;
    }
    let mut i: usize = 0;
    while i < a.len()
        invariant
            i <= a.len(),
            a@.len() == b@.len(),
            forall|j: int| 0 <= j < i ==> a@[j] == b@[j],
        decreases a.len() - i,
    {
        if a[i] != b[i] {
            return false;
        }
        i = i + 1;
    }
    proof {
        assert(a@ =~= b@);
    }
    true
}

/// The long-lived execution context of one engine run. It is exclusively
/// owned by the engine, created before the first call and anchored at the
/// pre-state of the first block to execute, and mutated only by merging the
/// diff of a successful call.
pub struct ExecutionContext {
    /// The storage root the context currently stands at.
    pub root: Vec<u8>,
    /// The state-encoding version recorded at creation time.
    pub state_version: StateVersion,
    /// The block hash the initial state was anchored at.
    pub anchor: Vec<u8>,
    /// The key writes merged during this run, over the anchored base.
    pub store: StorageOverlay,
}

impl ExecutionContext {
    pub fn new(root: Vec<u8>, state_version: StateVersion, anchor: Vec<u8>) -> (r:
        ExecutionContext)
        ensures
            r.root == root,
            r.state_version == state_version,
            r.anchor == anchor,
            r.store@ == Map::<Seq<u8>, Option<Seq<u8>>>::empty(),
    {
        ExecutionContext { root, state_version, anchor, store: StorageOverlay::new() }
    }

    /// Merge the diff of a successful call: the context advances to the
    /// diff's transaction root and takes over its key mutations, in order.
    /// Version and anchor never change.
    pub fn merge(&mut self, diff: StorageDiff)
        ensures
            final(self).root == diff.transaction_root,
            final(self).state_version == old(self).state_version,
            final(self).anchor == old(self).anchor,
            final(self).store@ == spec_apply(old(self).store@, diff.mutations@),
    {
        let StorageDiff { transaction_root, mut mutations } = diff;
        self.root = transaction_root;
        self.store.apply(&mut mutations);
    }
}

/// An owned copy of a byte string.
pub fn copy_bytes(v: &Vec<u8>) -> (r: Vec<u8>)
    ensures
        r@ == v@,
{
    let mut out: Vec<u8> = Vec::new();
    let mut i: usize = 0;
    while i < v.len()
        invariant
            i <= v.len(),
            out@ == v@.take(i as int),
        decreases v.len() - i,
    {
        out.push(v[i]);
        i = i + 1;
        proof {
            assert(out@ =~= v@.take(i as int));
        }
    }
    proof {
        assert(v@.take(v@.len() as int) =~= v@);
    }
    out
}

} // verus!
