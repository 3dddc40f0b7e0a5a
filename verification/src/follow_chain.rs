//! The replay engine: block-by-block re-execution of finalized blocks
//! against a long-lived execution context.
//!
//! The engine is a state machine. The surrounding process owns the
//! network and the sandbox: it waits for finality events, fetches block
//! bodies, builds the initial context and runs the sandboxed calls, and
//! hands each outcome back as a [`ReplayEvent`]. [`ReplayEngine::step`]
//! makes every decision: which block to fetch, where to anchor the context,
//! what payload to execute, and whether to merge a diff or skip the block.
//! No per-block failure ends the run; only the stream's own end (a soft,
//! logged condition) or a failure to build the context does.

use vstd::prelude::*;

use crate::context::{copy_bytes, spec_apply, ExecutionContext, StorageDiff};
use crate::pipeline::{execute_block_payload, spec_execute_block_payload, CallErrorKind};
use crate::selectors::TryStateSelect;

verus! {

/// One finalized header, as reported by the subscription. Headers arrive in
/// finalization order; the engine reacts only to the head each event
/// reports and never walks intermediate ancestors.
pub struct FinalizedHeader {
    pub hash: Vec<u8>,
    pub parent_hash: Vec<u8>,
    pub number: u64,
}

/// Why a block body could not be fetched.
#[derive(Clone, Copy, PartialEq, Eq, Structural, Debug)]
pub enum BlockFetchError {
    /// The remote block's encoding does not parse against the locally
    /// compiled format: the local build is incompatible with the remote
    /// chain's block shape. Logged distinctly.
    FormatMismatch,
    /// Any other transport or RPC failure.
    Transport,
}

/// What the engine observed since its last decision.
pub enum ReplayEvent {
    /// The subscription reported a newly finalized header.
    HeaderFinalized(FinalizedHeader),
    /// The subscription closed: no more headers will arrive.
    StreamClosed,
    /// The requested block body arrived, in its wire encoding.
    BlockFetched { encoded_block: Vec<u8> },
    /// The requested block body could not be fetched.
    BlockFetchFailed(BlockFetchError),
    /// The initial execution context was built at the requested anchor.
    ContextReady(ExecutionContext),
    /// The initial execution context could not be built.
    ContextFailed,
    /// The sandboxed call succeeded and produced a storage diff.
    CallSucceeded(StorageDiff),
    /// The sandboxed call failed.
    CallFailed(CallErrorKind),
}

/// Why a header was skipped without a merge.
#[derive(Clone, Copy, PartialEq, Eq, Structural, Debug)]
pub enum SkipReason {
    /// The fetch failed because the remote block shape does not match the
    /// local build; logged distinctly from other fetch failures.
    FormatMismatch,
    /// The fetch failed for an ordinary transport reason.
    Transport,
    /// The sandboxed call failed.
    Call(CallErrorKind),
}

/// What the process must do next.
#[derive(Debug)]
pub enum ReplayAction {
    /// Request the block body with this hash.
    FetchBlock { hash: Vec<u8> },
    /// Build the initial execution context: a live state anchored at the
    /// block with this (hex-spelled) hash, pinning the child-trie prefixes
    /// a full-block execution needs.
    BuildContext { anchor: String },
    /// Invoke the execute-block entry point with this payload; when
    /// `export_block` is set, record a proof and write it to the file
    /// named by that block number.
    Execute { payload: Vec<u8>, export_block: Option<u64> },
    /// Log the failure for this block number and await the next header.
    /// The run goes on.
    Skip { number: u64, reason: SkipReason },
    /// The diff was merged; log the new storage root and await the next
    /// header.
    Merged { number: u64, root: Vec<u8> },
    /// The stream ended. Log it as an error, but report overall success.
    Finished,
    /// The context could not be built: a fatal setup failure.
    Failed,
}

/// The one fatal error of a replay run: everything else is skipped over.
#[derive(Clone, Copy, PartialEq, Eq, Structural, Debug)]
pub enum ReplayError {
    /// The initial execution context could not be built.
    ContextConstruction,
}

/// Where the engine stands between two events.
#[derive(Clone, Copy, PartialEq, Eq, Structural, Debug)]
pub enum ReplayPhase {
    /// Waiting for the next finality event.
    AwaitingHeader,
    /// Waiting for the pending header's block body.
    FetchingBlock,
    /// Waiting for the initial context.
    BuildingContext,
    /// Waiting for the sandboxed call's outcome.
    Executing,
    /// The stream closed; the run ended cleanly.
    Finished,
    /// Context construction failed; the run ended in error.
    Failed,
}

/// The configuration of a replay run.
pub struct Command {
    /// The endpoint the process connects to.
    pub uri: String,
    /// Whether the sandboxed execution checks the state root.
    pub state_root_check: bool,
    /// Which try-state checks run after each block.
    pub try_state: TryStateSelect,
    /// Whether one connection is kept and reused for fetching blocks.
    pub keep_connection: bool,
}

/// The lowercase hex digit of a nibble.
pub open spec fn spec_hex_digit(d: int) -> char {
    if d == 0 {
        '0'
    } else if d == 1 {
        '1'
    } else if d == 2 {
        '2'
    } else if d == 3 {
        '3'
    } else if d == 4 {
        '4'
    } else if d == 5 {
        '5'
    } else if d == 6 {
        '6'
    } else if d == 7 {
        '7'
    } else if d == 8 {
        '8'
    } else if d == 9 {
        '9'
    } else if d == 10 {
        'a'
    } else if d == 11 {
        'b'
    } else if d == 12 {
        'c'
    } else if d == 13 {
        'd'
    } else if d == 14 {
        'e'
    } else {
        'f'
    }
}

/// The lowercase hex spelling of a byte string: two digits per byte, high
/// nibble first.
pub open spec fn spec_hex(bytes: Seq<u8>) -> Seq<char>
    decreases bytes.len(),
{
    if bytes.len() == 0 {
        Seq::empty()
    } else {
        seq![
            spec_hex_digit((bytes[0] as int) / 16),
            spec_hex_digit((bytes[0] as int) % 16),
        ] + spec_hex(bytes.drop_first())
    }
}

/// Relies on hex::encode: each byte becomes exactly two lowercase hex
/// digits, high nibble first, from the digit table 0-9 a-f.
#[verifier::external_body]
fn hex_encode(bytes: &Vec<u8>) -> (r: String)
    ensures
        r@ == spec_hex(bytes@),
{
    hex::encode(bytes.as_slice())
}

/// The hex-spelled hash a live context is anchored at.
pub fn live_anchor(block_hash: &Vec<u8>) -> (r: String)
    ensures
        r@ == spec_hex(block_hash@),
{
    hex_encode(block_hash)
}

/// Which events a phase can observe: each phase awaits the outcome of the
/// one action the engine last requested.
pub open spec fn accepts(phase: ReplayPhase, event: ReplayEvent) -> bool {
    match phase {
        ReplayPhase::AwaitingHeader => event is HeaderFinalized || event is StreamClosed,
        ReplayPhase::FetchingBlock => event is BlockFetched || event is BlockFetchFailed,
        ReplayPhase::BuildingContext => event is ContextReady || event is ContextFailed,
        ReplayPhase::Executing => event is CallSucceeded || event is CallFailed,
        ReplayPhase::Finished => false,
        ReplayPhase::Failed => false,
    }
}

/// The phase after observing `event`. `has_ctx` says whether the long-lived
/// context already exists: the first fetched block must first build one,
/// anchored at its header's parent.
pub open spec fn next_phase(phase: ReplayPhase, has_ctx: bool, event: ReplayEvent) -> ReplayPhase {
    match (phase, event) {
        (ReplayPhase::AwaitingHeader, ReplayEvent::HeaderFinalized(_)) => ReplayPhase::FetchingBlock,
        (ReplayPhase::AwaitingHeader, ReplayEvent::StreamClosed) => ReplayPhase::Finished,
        (ReplayPhase::FetchingBlock, ReplayEvent::BlockFetched { .. }) => if has_ctx {
            ReplayPhase::Executing
        } else {
            ReplayPhase::BuildingContext
        },
        (ReplayPhase::FetchingBlock, ReplayEvent::BlockFetchFailed(_)) => ReplayPhase::AwaitingHeader,
        (ReplayPhase::BuildingContext, ReplayEvent::ContextReady(_)) => ReplayPhase::Executing,
        (ReplayPhase::BuildingContext, ReplayEvent::ContextFailed) => ReplayPhase::Failed,
        (ReplayPhase::Executing, ReplayEvent::CallSucceeded(_)) => ReplayPhase::AwaitingHeader,
        (ReplayPhase::Executing, ReplayEvent::CallFailed(_)) => ReplayPhase::AwaitingHeader,
        _ => phase,
    }
}

/// Whether the context exists after observing `event`.
pub open spec fn has_ctx_after(has_ctx: bool, event: ReplayEvent) -> bool {
    match event {
        ReplayEvent::ContextReady(_) => true,
        _ => has_ctx,
    }
}

/// Whether `events` is a sequence the engine can observe from this phase:
/// each event answers the phase that awaits it.
pub open spec fn valid_trace(phase: ReplayPhase, has_ctx: bool, events: Seq<ReplayEvent>) -> bool
    decreases events.len(),
{
    events.len() == 0 || {
        &&& accepts(phase, events.first())
        &&& valid_trace(
            next_phase(phase, has_ctx, events.first()),
            has_ctx_after(has_ctx, events.first()),
            events.drop_first(),
        )
    }
}

/// The storage roots of the successful calls in `events`, in order. Its
/// length is the number of diff-merges the engine performs on that trace.
pub open spec fn merge_trace(events: Seq<ReplayEvent>) -> Seq<Seq<u8>>
    decreases events.len(),
{
    if events.len() == 0 {
        Seq::empty()
    } else {
        merge_trace(events.drop_last()) + (match events.last() {
            ReplayEvent::CallSucceeded(d) => seq![d.transaction_root@],
            _ => Seq::<Seq<u8>>::empty(),
        })
    }
}

/// The replay engine. One exists per run; it exclusively owns the one
/// execution context, and every decision is strictly sequential: no two
/// calls are ever in flight.
pub struct ReplayEngine {
    /// The run's configuration.
    pub command: Command,
    /// Whether each successful call's proof is exported.
    pub export_proof: bool,
    /// Where the engine stands.
    pub phase: ReplayPhase,
    /// The header whose block is currently in flight.
    pub pending_header: Option<FinalizedHeader>,
    /// The fetched block held while the context is being built.
    pub pending_block: Option<Vec<u8>>,
    /// The long-lived execution context, created at the first block.
    pub context: Option<ExecutionContext>,
    /// How many diffs have been merged.
    pub merges: u64,
    /// Every root the context has advanced to, in merge order.
    pub roots: Vec<Vec<u8>>,
}

impl ReplayEngine {
    /// The data each phase relies on is present.
    pub open spec fn wf(self) -> bool {
        &&& (self.phase is FetchingBlock || self.phase is BuildingContext
            || self.phase is Executing) ==> self.pending_header is Some
        &&& self.phase is BuildingContext ==> self.pending_block is Some
        &&& self.phase is Executing ==> self.context is Some
    }

    pub fn new(command: Command, export_proof: bool) -> (r: ReplayEngine)
        ensures
            r.wf(),
            r.command == command,
            r.export_proof == export_proof,
            r.phase == ReplayPhase::AwaitingHeader,
            r.context is None,
            r.merges == 0,
            r.roots@ == Seq::<Vec<u8>>::empty(),
    {
        ReplayEngine {
            command,
            export_proof,
            phase: ReplayPhase::AwaitingHeader,
            pending_header: None,
            pending_block: None,
            context: None,
            merges: 0,
            roots: Vec::new(),
        }
    }

    /// Observe one event and decide the next action.
    ///
    /// Every header transition has exactly two outcomes — advance with the
    /// diff merged, or advance without a merge — and both return to
    /// awaiting the next header: a failed fetch or call never ends the run
    /// and never touches the context.
    pub fn step(&mut self, event: ReplayEvent) -> (action: ReplayAction)
        requires
            old(self).wf(),
            accepts(old(self).phase, event),
            event is CallSucceeded ==> old(self).merges < u64::MAX,
        ensures
            final(self).wf(),
            final(self).command == old(self).command,
            final(self).export_proof == old(self).export_proof,
            final(self).phase == next_phase(old(self).phase, old(self).context is Some, event),
            (final(self).context is Some) == has_ctx_after(old(self).context is Some, event),
            final(self).merges == old(self).merges + (if event is CallSucceeded {
                1int
            } else {
                0int
            }),
            final(self).roots.deep_view() == old(self).roots.deep_view() + (match event {
                ReplayEvent::CallSucceeded(d) => seq![d.transaction_root@],
                _ => Seq::<Seq<u8>>::empty(),
            }),
            (match event {
                ReplayEvent::HeaderFinalized(h) => {
                    &&& final(self).pending_header == Some(h)
                    &&& final(self).context == old(self).context
                    &&& action matches ReplayAction::FetchBlock { hash } && hash@ == h.hash@
                },
                ReplayEvent::StreamClosed => {
                    &&& final(self).context == old(self).context
                    &&& action is Finished
                },
                ReplayEvent::BlockFetched { encoded_block } => {
                    &&& final(self).context == old(self).context
                    &&& final(self).pending_header == old(self).pending_header
                    &&& if old(self).context is Some {
                        action matches ReplayAction::Execute { payload, export_block }
                            && payload@ == spec_execute_block_payload(
                            encoded_block@,
                            old(self).command.state_root_check,
                            old(self).command.try_state,
                        ) && export_block == (if old(self).export_proof {
                            Some(old(self).pending_header->Some_0.number)
                        } else {
                            Option::<u64>::None
                        })
                    } else {
                        &&& final(self).pending_block == Some(encoded_block)
                        &&& action matches ReplayAction::BuildContext { anchor } && anchor@
                            == spec_hex(old(self).pending_header->Some_0.parent_hash@)
                    }
                },
                ReplayEvent::BlockFetchFailed(kind) => {
                    &&& final(self).context == old(self).context
                    &&& action == ReplayAction::Skip {
                        number: old(self).pending_header->Some_0.number,
                        reason: (match kind {
                            BlockFetchError::FormatMismatch => SkipReason::FormatMismatch,
                            BlockFetchError::Transport => SkipReason::Transport,
                        }),
                    }
                },
                ReplayEvent::ContextReady(ctx) => {
                    &&& final(self).context == Some(ctx)
                    &&& final(self).pending_block is None
                    &&& action matches ReplayAction::Execute { payload, export_block } && payload@
                        == spec_execute_block_payload(
                        old(self).pending_block->Some_0@,
                        old(self).command.state_root_check,
                        old(self).command.try_state,
                    ) && export_block == (if old(self).export_proof {
                        Some(old(self).pending_header->Some_0.number)
                    } else {
                        Option::<u64>::None
                    })
                },
                ReplayEvent::ContextFailed => {
                    &&& final(self).context == old(self).context
                    &&& action is Failed
                },
                ReplayEvent::CallSucceeded(d) => {
                    &&& final(self).context matches Some(c) && c.root@ == d.transaction_root@
                        && c.state_version == old(self).context->Some_0.state_version && c.anchor
                        == old(self).context->Some_0.anchor && c.store@ == spec_apply(
                        old(self).context->Some_0.store@,
                        d.mutations@,
                    )
                    &&& action matches ReplayAction::Merged { number, root } && number == old(
                        self,
                    ).pending_header->Some_0.number && root@ == d.transaction_root@
                },
                ReplayEvent::CallFailed(e) => {
                    &&& final(self).context == old(self).context
                    &&& action == ReplayAction::Skip {
                        number: old(self).pending_header->Some_0.number,
                        reason: SkipReason::Call(e),
                    }
                },
            }),
    {
        match event {
            ReplayEvent::HeaderFinalized(h) => {
                let hash: Vec<u8> = copy_bytes(&h.hash);
                self.pending_header = Some(h);
                self.phase = ReplayPhase::FetchingBlock;
                proof {
                    assert(self.roots.deep_view() =~= old(self).roots.deep_view()
                        + Seq::<Seq<u8>>::empty());
                }
                ReplayAction::FetchBlock { hash }
            },
            ReplayEvent::StreamClosed => {
                self.phase = ReplayPhase::Finished;
                proof {
                    assert(self.roots.deep_view() =~= old(self).roots.deep_view()
                        + Seq::<Seq<u8>>::empty());
                }
                ReplayAction::Finished
            },
            ReplayEvent::BlockFetched { encoded_block } => {
                proof {
                    assert(self.roots.deep_view() =~= old(self).roots.deep_view()
                        + Seq::<Seq<u8>>::empty());
                }
                if self.context.is_some() {
                    let number: u64 = match &self.pending_header {
                        Some(h) => h.number,
                        None => vstd::pervasive::unreached(),
                    };
                    let payload: Vec<u8> = execute_block_payload(
                        &encoded_block,
                        self.command.state_root_check,
                        &self.command.try_state,
                    );
                    let export_block: Option<u64> = if self.export_proof {
                        Some(number)
                    } else {
                        None
                    };
                    self.phase = ReplayPhase::Executing;
                    ReplayAction::Execute { payload, export_block }
                } else {
                    let anchor: String = match &self.pending_header {
                        Some(h) => live_anchor(&h.parent_hash),
                        None => vstd::pervasive::unreached(),
                    };
                    self.pending_block = Some(encoded_block);
                    self.phase = ReplayPhase::BuildingContext;
                    ReplayAction::BuildContext { anchor }
                }
            },
            ReplayEvent::BlockFetchFailed(kind) => {
                let number: u64 = match &self.pending_header {
                    Some(h) => h.number,
                    None => vstd::pervasive::unreached(),
                };
                self.phase = ReplayPhase::AwaitingHeader;
                proof {
                    assert(self.roots.deep_view() =~= old(self).roots.deep_view()
                        + Seq::<Seq<u8>>::empty());
                }
                let reason: SkipReason = match kind {
                    BlockFetchError::FormatMismatch => SkipReason::FormatMismatch,
                    BlockFetchError::Transport => SkipReason::Transport,
                };
                ReplayAction::Skip { number, reason }
            },
            ReplayEvent::ContextReady(ctx) => {
                let number: u64 = match &self.pending_header {
                    Some(h) => h.number,
                    None => vstd::pervasive::unreached(),
                };
                self.context = Some(ctx);
                let block: Vec<u8> = match self.pending_block.take() {
                    Some(b) => b,
                    None => vstd::pervasive::unreached(),
                };
                let payload: Vec<u8> = execute_block_payload(
                    &block,
                    self.command.state_root_check,
                    &self.command.try_state,
                );
                let export_block: Option<u64> = if self.export_proof {
                    Some(number)
                } else {
                    None
                };
                self.phase = ReplayPhase::Executing;
                proof {
                    assert(self.roots.deep_view() =~= old(self).roots.deep_view()
                        + Seq::<Seq<u8>>::empty());
                }
                ReplayAction::Execute { payload, export_block }
            },
            ReplayEvent::ContextFailed => {
                self.phase = ReplayPhase::Failed;
                proof {
                    assert(self.roots.deep_view() =~= old(self).roots.deep_view()
                        + Seq::<Seq<u8>>::empty());
                }
                ReplayAction::Failed
            },
            ReplayEvent::CallSucceeded(d) => {
                let number: u64 = match &self.pending_header {
                    Some(h) => h.number,
                    None => vstd::pervasive::unreached(),
                };
                let root_for_action: Vec<u8> = copy_bytes(&d.transaction_root);
                let root_for_history: Vec<u8> = copy_bytes(&d.transaction_root);
                let mut ctx: ExecutionContext = match self.context.take() {
                    Some(c) => c,
                    None => vstd::pervasive::unreached(),
                };
                ctx.merge(d);
                self.context = Some(ctx);
                self.roots.push(root_for_history);
                self.merges = self.merges + 1;
                self.phase = ReplayPhase::AwaitingHeader;
                proof {
                    assert(self.roots.deep_view() =~~= old(self).roots.deep_view().push(
                        root_for_history@,
                    ));
                }
                ReplayAction::Merged { number, root: root_for_action }
            },
            ReplayEvent::CallFailed(e) => {
                let number: u64 = match &self.pending_header {
                    Some(h) => h.number,
                    None => vstd::pervasive::unreached(),
                };
                self.phase = ReplayPhase::AwaitingHeader;
                proof {
                    assert(self.roots.deep_view() =~= old(self).roots.deep_view()
                        + Seq::<Seq<u8>>::empty());
                }
                ReplayAction::Skip { number, reason: SkipReason::Call(e) }
            },
        }
    }

    /// The run's overall outcome once the engine stopped: the stream's
    /// natural end is a success, however it was logged; only a failed
    /// context construction is an error.
    pub fn outcome(&self) -> (r: Result<(), ReplayError>)
        requires
            self.phase is Finished || self.phase is Failed,
        ensures
            r is Ok <==> self.phase is Finished,
            r is Err ==> r == Err::<(), ReplayError>(ReplayError::ContextConstruction),
    {
        match self.phase {
            ReplayPhase::Finished => Ok(()),
            _ => Err(ReplayError::ContextConstruction),
        }
    }
}

/// Splitting a trace splits its merge trace.
pub proof fn lemma_merge_trace_append(a: Seq<ReplayEvent>, b: Seq<ReplayEvent>)
    ensures
        merge_trace(a + b) == merge_trace(a) + merge_trace(b),
    decreases b.len(),
{
    if b.len() == 0 {
        assert(a + b =~= a);
        assert(merge_trace(a) + merge_trace(b) =~= merge_trace(a));
    } else {
        lemma_merge_trace_append(a, b.drop_last());
        assert((a + b).drop_last() =~= a + b.drop_last());
        assert(merge_trace(a + b) =~= merge_trace(a) + merge_trace(b));
    }
}

/// Feed the engine a whole observed event sequence, one decision at a time.
///
/// This is the replay loop's contract: for the N successful calls in the
/// trace there are exactly N diff-merges, the recorded root history grows by
/// exactly those N roots in chain order (earlier entries never change or
/// revert), and after the last merge the context stands at the last merged
/// root. Configuration never changes mid-run.
pub fn run(engine: &mut ReplayEngine, events: Vec<ReplayEvent>) -> (actions: Vec<ReplayAction>)
    requires
        old(engine).wf(),
        valid_trace(old(engine).phase, old(engine).context is Some, events@),
        old(engine).merges + merge_trace(events@).len() <= u64::MAX,
    ensures
        final(engine).wf(),
        final(engine).command == old(engine).command,
        final(engine).export_proof == old(engine).export_proof,
        final(engine).merges == old(engine).merges + merge_trace(events@).len(),
        final(engine).roots.deep_view() == old(engine).roots.deep_view() + merge_trace(events@),
        actions@.len() == events@.len(),
        merge_trace(events@).len() > 0 ==> (final(engine).context matches Some(c) && c.root@
            == merge_trace(events@).last()),
{
    let ghost all = events@;
    let total: usize = events.len();
    let mut events = events;
    let mut actions: Vec<ReplayAction> = Vec::new();
    let mut i: usize = 0;
    proof {
        assert(all.take(0) =~= Seq::<ReplayEvent>::empty());
        assert(all.skip(0) =~= all);
        assert(engine.roots.deep_view() =~= old(engine).roots.deep_view() + merge_trace(
            all.take(0),
        ));
        assert(merge_trace(all.take(0)) + merge_trace(all.skip(0)) =~= merge_trace(all));
    }
    while events.len() > 0
        invariant
            all.len() == total,
            i + events@.len() == all.len(),
            events@ == all.skip(i as int),
            engine.wf(),
            engine.command == old(engine).command,
            engine.export_proof == old(engine).export_proof,
            valid_trace(engine.phase, engine.context is Some, all.skip(i as int)),
            engine.merges == old(engine).merges + merge_trace(all.take(i as int)).len(),
            old(engine).merges + merge_trace(all).len() <= u64::MAX,
            merge_trace(all) == merge_trace(all.take(i as int)) + merge_trace(all.skip(i as int)),
            engine.roots.deep_view() == old(engine).roots.deep_view() + merge_trace(
                all.take(i as int),
            ),
            merge_trace(all.take(i as int)).len() > 0 ==> (engine.context matches Some(c)
                && c.root@ == merge_trace(all.take(i as int)).last() && !(engine.phase
                is BuildingContext)),
            actions@.len() == i,
        decreases events@.len(),
    {
        let ghost pre = *engine;
        let ev = events.remove(0);
        let ghost delta = (match ev {
            ReplayEvent::CallSucceeded(ref d) => seq![d.transaction_root@],
            _ => Seq::<Seq<u8>>::empty(),
        });
        proof {
            assert(all.skip(i as int)[0] == ev);
            assert(all.skip(i as int).drop_first() =~= all.skip(i + 1));
            assert(all.skip(i as int) =~= seq![ev] + all.skip(i + 1));
            lemma_merge_trace_append(seq![ev], all.skip(i + 1));
            assert(seq![ev].drop_last() =~= Seq::<ReplayEvent>::empty());
            assert(merge_trace(Seq::<ReplayEvent>::empty()) =~= Seq::<Seq<u8>>::empty());
            assert(seq![ev].last() == ev);
            assert(merge_trace(seq![ev]) =~= delta);
        }
        let act = engine.step(ev);
        actions.push(act);
        i = i + 1;
        proof {
            assert(all.take(i as int).drop_last() =~= all.take(i - 1));
            assert(all.take(i as int).last() == ev);
            assert(merge_trace(all.take(i as int)) =~= merge_trace(all.take(i - 1)) + delta);
            assert(engine.roots.deep_view() =~= old(engine).roots.deep_view() + merge_trace(
                all.take(i as int),
            ));
            assert(merge_trace(all.take(i as int)) + merge_trace(all.skip(i as int)) =~=
                merge_trace(all));
            if merge_trace(all.take(i as int)).len() > 0 {
                if delta.len() > 0 {
                    assert(merge_trace(all.take(i as int)).last() == delta.last());
                } else {
                    assert(merge_trace(all.take(i as int)) =~= merge_trace(all.take(i - 1)));
                    assert(engine.context == pre.context);
                }
            }
        }
    }
    proof {
        assert(all.skip(i as int).len() == 0);
        assert(all.take(i as int) =~= all);
    }
    actions
}

/// Replaying a single block from a fresh snapshot: the four observations of
/// one successfully executed block form a valid trace from a fresh engine's
/// starting state, and its merge trace is exactly that block's diff root.
/// With [`run`]'s contract, the context after the run therefore stands at
/// the diff's transaction root: the expected post-state root of the block.
pub proof fn lemma_single_block_replay(
    h: FinalizedHeader,
    encoded_block: Vec<u8>,
    ctx: ExecutionContext,
    d: StorageDiff,
)
    ensures
        valid_trace(
            ReplayPhase::AwaitingHeader,
            false,
            seq![
                ReplayEvent::HeaderFinalized(h),
                ReplayEvent::BlockFetched { encoded_block },
                ReplayEvent::ContextReady(ctx),
                ReplayEvent::CallSucceeded(d),
            ],
        ),
        merge_trace(
            seq![
                ReplayEvent::HeaderFinalized(h),
                ReplayEvent::BlockFetched { encoded_block },
                ReplayEvent::ContextReady(ctx),
                ReplayEvent::CallSucceeded(d),
            ],
        ) =~= seq![d.transaction_root@],
{
    let t = seq![
        ReplayEvent::HeaderFinalized(h),
        ReplayEvent::BlockFetched { encoded_block },
        ReplayEvent::ContextReady(ctx),
        ReplayEvent::CallSucceeded(d),
    ];
    assert(t.drop_first() =~= seq![
        ReplayEvent::BlockFetched { encoded_block },
        ReplayEvent::ContextReady(ctx),
        ReplayEvent::CallSucceeded(d),
    ]);
    assert(t.drop_first().drop_first() =~= seq![
        ReplayEvent::ContextReady(ctx),
        ReplayEvent::CallSucceeded(d),
    ]);
    assert(t.drop_first().drop_first().drop_first() =~= seq![ReplayEvent::CallSucceeded(d)]);
    assert(t.drop_first().drop_first().drop_first().drop_first() =~= Seq::<ReplayEvent>::empty());
    assert(valid_trace(ReplayPhase::AwaitingHeader, false, t)) by {
        reveal_with_fuel(valid_trace, 6);
    }
    assert(t.drop_last() =~= seq![
        ReplayEvent::HeaderFinalized(h),
        ReplayEvent::BlockFetched { encoded_block },
        ReplayEvent::ContextReady(ctx),
    ]);
    assert(merge_trace(t.drop_last()) =~= Seq::<Seq<u8>>::empty()) by {
        reveal_with_fuel(merge_trace, 6);
        assert(t.drop_last().drop_last() =~= seq![
            ReplayEvent::HeaderFinalized(h),
            ReplayEvent::BlockFetched { encoded_block },
        ]);
        assert(t.drop_last().drop_last().drop_last() =~= seq![ReplayEvent::HeaderFinalized(h)]);
        assert(t.drop_last().drop_last().drop_last().drop_last() =~= Seq::<ReplayEvent>::empty());
    }
}

} // verus!
