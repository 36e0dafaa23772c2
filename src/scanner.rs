use crate::addresses::{
    insert_all_spec, lemma_insert_all_set, Address, DiscoveredAddresses,
};
use crate::batches::{
    lemma_window_bounds, plan_spec, window_from, window_starting_at, BlockBatch,
};
use vstd::prelude::*;

verus! {

/// Why the chain client could not answer.
#[derive(Clone, Copy, Debug, PartialEq, Eq, Structural)]
pub enum ChainError {
    /// The node could not be reached.
    ConnectionFailed,
    /// The node did not report its head block.
    HeadUnavailable,
    /// The node rejected or failed a request (a timeout, a malformed response,
    /// a range it refuses).
    RequestFailed,
}

/// Why a scan stopped without a result.
#[derive(Clone, Copy, Debug, PartialEq, Eq, Structural)]
pub enum ScanError {
    /// The chain head, needed as the upper bound, could not be resolved.
    HeadUnavailable { cause: ChainError },
    /// The log query for `window` failed.
    QueryFailed { window: BlockBatch, cause: ChainError },
}

/// What a completed scan found.
pub struct ScanResult {
    pub last_scanned_block: u64,
    pub addresses: DiscoveredAddresses,
}

/// Where a scanner stands in its single run.
#[derive(Clone, Copy, Debug, PartialEq, Eq, Structural)]
pub enum ScanPhase {
    NotStarted,
    AwaitingHead,
    Scanning,
    Completed,
    Failed,
}

/// What the caller must do next for the scan to go on.
pub enum ScanAction {
    /// Ask the chain client for its current block number, then call `on_head`.
    ResolveHead,
    /// Ask the chain client for the logs of this window that carry the topic,
    /// then call `on_logs` with their addresses.
    QueryLogs(BlockBatch),
    /// The scan is complete.
    Finished(ScanResult),
    /// The scan stopped; there is no result.
    Failed(ScanError),
}

/// The abstract state of a scanner: its configuration, its phase, the resolved
/// upper bound and the addresses of the logs of each window answered so far.
pub struct ScanModel {
    pub chain_id: u64,
    pub start: u64,
    pub max_block: Option<u64>,
    pub size: u64,
    pub phase: ScanPhase,
    pub end: u64,
    pub responses: Seq<Seq<Address>>,
}

/// The addresses found after the windows answered `responses`, in order.
pub open spec fn discovered_spec(responses: Seq<Seq<Address>>) -> Seq<Address>
    decreases responses.len(),
{
    if responses.len() == 0 {
        Seq::empty()
    } else {
        insert_all_spec(discovered_spec(responses.drop_last()), responses.last())
    }
}

/// Every address that occurs in one of `responses`.
pub open spec fn responses_union(responses: Seq<Seq<Address>>) -> Set<Address>
    decreases responses.len(),
{
    if responses.len() == 0 {
        Set::empty()
    } else {
        responses_union(responses.drop_last()).union(responses.last().to_set())
    }
}

/// The windows of the scan that `m` describes.
pub open spec fn windows_of(m: ScanModel) -> Seq<BlockBatch> {
    plan_spec(m.start, m.end, m.size)
}

/// The last block of the last window answered, or the start block.
pub open spec fn last_scanned_spec(m: ScanModel) -> u64 {
    if m.responses.len() == 0 {
        m.start
    } else {
        windows_of(m)[m.responses.len() - 1].to
    }
}

/// `a` is the action that follows once the bound is resolved and the windows
/// before the next one are answered: the query of the next window, or the
/// result when none is left.
pub open spec fn action_for(m: ScanModel, a: ScanAction) -> bool {
    if m.responses.len() < windows_of(m).len() {
        &&& m.phase == ScanPhase::Scanning
        &&& a matches ScanAction::QueryLogs(w)
        &&& w == windows_of(m)[m.responses.len() as int]
    } else {
        &&& m.phase == ScanPhase::Completed
        &&& m.responses.len() == windows_of(m).len()
        &&& a matches ScanAction::Finished(r)
        &&& r.last_scanned_block == last_scanned_spec(m)
        &&& r.addresses@ == discovered_spec(m.responses)
        &&& r.addresses.wf()
    }
}

/// The addresses found by a scan are each held once, and they are exactly the
/// addresses of all the logs returned, whatever the duplicates within or
/// across windows: the same responses always give the same set.
pub proof fn lemma_discovered_is_union(responses: Seq<Seq<Address>>)
    ensures
        discovered_spec(responses).no_duplicates(),
        discovered_spec(responses).to_set() == responses_union(responses),
    decreases responses.len(),
{
    if responses.len() == 0 {
        assert(Seq::<Address>::empty().to_set() =~= Set::empty());
    } else {
        lemma_discovered_is_union(responses.drop_last());
        lemma_insert_all_set(discovered_spec(responses.drop_last()), responses.last());
    }
}

/// Scans the logs of a block range for one topic, window by window. The
/// caller performs each request that an action names and hands back its
/// outcome; the scanner decides what comes next.
pub struct Scanner {
    chain_id: u64,
    genesis_block: u64,
    max_block: Option<u64>,
    batch_size: u64,
    phase: ScanPhase,
    end_block: u64,
    next_from: u64,
    last_block: u64,
    discovered: DiscoveredAddresses,
    responses: Ghost<Seq<Seq<Address>>>,
}

impl View for Scanner {
    type V = ScanModel;

    closed spec fn view(&self) -> ScanModel {
        ScanModel {
            chain_id: self.chain_id,
            start: self.genesis_block,
            max_block: self.max_block,
            size: self.batch_size,
            phase: self.phase,
            end: self.end_block,
            responses: self.responses@,
        }
    }
}

impl Scanner {
    /// The scanner's fields agree with its phase.
    pub closed spec fn wf(&self) -> bool {
        &&& self.batch_size > 0
        &&& self.discovered.wf()
        &&& (self.phase == ScanPhase::NotStarted || self.phase == ScanPhase::AwaitingHead) ==> {
            &&& self.responses@.len() == 0
            &&& self.discovered@ == Seq::<Address>::empty()
            &&& self.last_block == self.genesis_block
        }
        &&& self.phase == ScanPhase::Scanning ==> {
            &&& self.responses@.len() < windows_of(self@).len()
            &&& self.next_from == window_from(
                self.genesis_block as int,
                self.batch_size as int,
                self.responses@.len() as int,
            )
            &&& self.last_block == last_scanned_spec(self@)
            &&& self.discovered@ == discovered_spec(self.responses@)
        }
    }

    pub fn new(chain_id: u64, genesis_block: u64, max_block: Option<u64>, batch_size: u64) -> (r:
        Self)
        requires
            batch_size > 0,
        ensures
            r.wf(),
            r@.chain_id == chain_id,
            r@.start == genesis_block,
            r@.max_block == max_block,
            r@.size == batch_size,
            r@.phase == ScanPhase::NotStarted,
            r@.responses == Seq::<Seq<Address>>::empty(),
    {
        Scanner {
            chain_id,
            genesis_block,
            max_block,
            batch_size,
            phase: ScanPhase::NotStarted,
            end_block: genesis_block,
            next_from: genesis_block,
            last_block: genesis_block,
            discovered: DiscoveredAddresses::new(),
            responses: Ghost(Seq::empty()),
        }
    }

    pub fn chain_id(&self) -> (r: u64)
        ensures
            r == self@.chain_id,
    {
        self.chain_id
    }

    pub fn phase(&self) -> (r: ScanPhase)
        ensures
            r == self@.phase,
    {
        self.phase
    }

    /// Ends the scan and hands out what it found.
    fn finish(&mut self) -> (a: ScanAction)
        requires
            old(self).batch_size > 0,
            old(self).discovered.wf(),
            old(self).responses@.len() == windows_of(old(self)@).len(),
            old(self).last_block == last_scanned_spec(old(self)@),
            old(self).discovered@ == discovered_spec(old(self).responses@),
        ensures
            final(self)@ == (ScanModel { phase: ScanPhase::Completed, ..old(self)@ }),
            final(self).wf(),
            action_for(final(self)@, a),
    {
        let mut found = DiscoveredAddresses::new();
        std::mem::swap(&mut self.discovered, &mut found);
        self.phase = ScanPhase::Completed;
        ScanAction::Finished(ScanResult { last_scanned_block: self.last_block, addresses: found })
    }

    /// Fixes the upper bound at `end` and takes the first step of the scan.
    fn start_scan(&mut self, end: u64) -> (a: ScanAction)
        requires
            old(self).wf(),
            old(self).phase == ScanPhase::NotStarted || old(self).phase
                == ScanPhase::AwaitingHead,
        ensures
            final(self)@ == (ScanModel { end, phase: final(self)@.phase, ..old(self)@ }),
            final(self).wf(),
            action_for(final(self)@, a),
    {
        self.end_block = end;
        self.next_from = self.genesis_block;
        assert(discovered_spec(self.responses@) == Seq::<Address>::empty());
        if self.genesis_block > end {
            self.finish()
        } else {
            proof {
                lemma_window_bounds(
                    self.genesis_block as int,
                    end as int,
                    self.batch_size as int,
                    0,
                );
            }
            let w = window_starting_at(self.genesis_block, end, self.batch_size);
            self.phase = ScanPhase::Scanning;
            ScanAction::QueryLogs(w)
        }
    }

    /// Starts the scan: with an end block configured, the scan runs up to it;
    /// otherwise the chain head must be resolved first.
    pub fn begin(&mut self) -> (a: ScanAction)
        requires
            old(self).wf(),
            old(self)@.phase == ScanPhase::NotStarted,
        ensures
            final(self).wf(),
            match old(self)@.max_block {
                Some(e) => {
                    &&& final(self)@ == (ScanModel { end: e, phase: final(self)@.phase, ..old(self)@ })
                    &&& action_for(final(self)@, a)
                },
                None => {
                    &&& final(self)@ == (ScanModel { phase: ScanPhase::AwaitingHead, ..old(self)@ })
                    &&& a is ResolveHead
                },
            },
    {
        match self.max_block {
            Some(e) => self.start_scan(e),
            None => {
                self.phase = ScanPhase::AwaitingHead;
                ScanAction::ResolveHead
            },
        }
    }

    /// Takes the outcome of the head query: its block number becomes the fixed
    /// upper bound of the whole scan; a failure ends the scan.
    pub fn on_head(&mut self, head: Result<u64, ChainError>) -> (a: ScanAction)
        requires
            old(self).wf(),
            old(self)@.phase == ScanPhase::AwaitingHead,
        ensures
            final(self).wf(),
            match head {
                Ok(h) => {
                    &&& final(self)@ == (ScanModel { end: h, phase: final(self)@.phase, ..old(self)@ })
                    &&& action_for(final(self)@, a)
                },
                Err(c) => {
                    &&& final(self)@ == (ScanModel { phase: ScanPhase::Failed, ..old(self)@ })
                    &&& a matches ScanAction::Failed(err)
                    &&& err == ScanError::HeadUnavailable { cause: c }
                },
            },
    {
        match head {
            Ok(h) => self.start_scan(h),
            Err(c) => {
                self.phase = ScanPhase::Failed;
                ScanAction::Failed(ScanError::HeadUnavailable { cause: c })
            },
        }
    }

    /// Takes the outcome of the log query for the pending window: its
    /// addresses join those found, or a failure ends the scan.
    pub fn on_logs(&mut self, logs: Result<Vec<Address>, ChainError>) -> (a: ScanAction)
        requires
            old(self).wf(),
            old(self)@.phase == ScanPhase::Scanning,
        ensures
            final(self).wf(),
            match logs {
                Ok(v) => {
                    &&& final(self)@ == (ScanModel {
                        responses: old(self)@.responses.push(v@),
                        phase: final(self)@.phase,
                        ..old(self)@
                    })
                    &&& action_for(final(self)@, a)
                },
                Err(c) => {
                    &&& final(self)@ == (ScanModel { phase: ScanPhase::Failed, ..old(self)@ })
                    &&& a matches ScanAction::Failed(err)
                    &&& err == (ScanError::QueryFailed {
                        window: windows_of(old(self)@)[old(self)@.responses.len() as int],
                        cause: c,
                    })
                },
            },
    {
        let ghost i = self.responses@.len() as int;
        proof {
            lemma_window_bounds(
                self.genesis_block as int,
                self.end_block as int,
                self.batch_size as int,
                i,
            );
        }
        let w = window_starting_at(self.next_from, self.end_block, self.batch_size);
        assert(w == windows_of(self@)[i]);
        match logs {
            Err(c) => {
                self.phase = ScanPhase::Failed;
                ScanAction::Failed(ScanError::QueryFailed { window: w, cause: c })
            },
            Ok(v) => {
                let ghost before = self.responses@;
                self.discovered.insert_all(&v);
                self.responses = Ghost(before.push(v@));
                assert(self.responses@.drop_last() =~= before);
                self.last_block = w.to;
                if w.to == self.end_block {
                    self.finish()
                } else {
                    self.next_from = w.to + 1;
                    proof {
                        lemma_window_bounds(
                            self.genesis_block as int,
                            self.end_block as int,
                            self.batch_size as int,
                            i + 1,
                        );
                    }
                    let next = window_starting_at(self.next_from, self.end_block, self.batch_size);
                    ScanAction::QueryLogs(next)
                }
            },
        }
    }
}

} // verus!
