//! The wallets that are not open: in the background each gets one batch of
//! blocks at a time.
use vstd::prelude::*;

use crate::pass::{
    batch_end, batch_limit, block_height, height_of, is_wanted, law_rank_decides_what_is_scanned,
    rank, wants_scan, ScanRange, SyncError,
};
use crate::sync::{InactiveWallet, SyncControl};

verus! {

/// How many blocks an inactive wallet gets at a time.
pub const INACTIVE_BATCH_SIZE: u32 = 500;

// ---------------------------------------------------------------------------
// One wallet
// ---------------------------------------------------------------------------

/// The blocks from `start` up to, not including, `end`.
#[derive(Clone, Copy, Debug, PartialEq, Eq, Structural)]
pub struct Blocks {
    pub start: u32,
    pub end: u32,
}

/// What the batch of an inactive wallet waits for.
#[derive(Debug)]
pub enum BatchStage {
    /// Open the wallet database.
    OpenWallet,
    /// Open the block cache.
    OpenCache,
    /// Connect to the server.
    Connect,
    /// Ask the server for the height of the chain.
    FetchTip,
    /// Tell the wallet the height of the chain.
    UpdateTip(u32),
    /// Ask the wallet what to scan.
    SuggestRanges,
    /// Fetch the state of the chain before the blocks.
    FetchChainState(Blocks),
    /// Download the blocks.
    FetchBlocks(Blocks),
    /// Store the blocks in the cache.
    InsertBlocks(Blocks),
    /// Scan the blocks; what comes of it is of no matter.
    ScanBlocks(Blocks),
    /// Remove the blocks from the cache.
    Clear(Blocks),
    /// Finished.
    Done(Result<(), SyncError>),
}

/// What came of the step that the batch waited for.
#[derive(Debug)]
pub enum BatchEvent {
    /// The step was carried out.
    Finished,
    /// The height of the chain, as the server gives it.
    Tip(u64),
    /// What the wallet suggests to scan.
    Ranges(Vec<ScanRange>),
    /// How many blocks came.
    Blocks(usize),
    /// The step failed.
    Failed(SyncError),
}

/// The first range that is to be scanned.
pub open spec fn first_wanted(ranges: Seq<ScanRange>) -> Option<ScanRange>
    decreases ranges.len(),
{
    if ranges.len() == 0 {
        None
    } else if is_wanted(ranges[0]) {
        Some(ranges[0])
    } else {
        first_wanted(ranges.drop_first())
    }
}

/// The blocks that the wallet gets of a range: those at its start.
pub open spec fn blocks_of(range: ScanRange) -> Blocks {
    Blocks {
        start: range.start,
        end: batch_limit(range.start, range.end, INACTIVE_BATCH_SIZE),
    }
}

/// The step ends the batch when it fails.
pub open spec fn can_fail(stage: BatchStage) -> bool {
    !(stage is ScanBlocks || stage is Clear || stage is Done)
}

/// The batch after `event`, where `cancel` says whether the synchronisation was
/// asked to stop. An event that the stage does not wait for changes nothing.
pub open spec fn inactive_batch_next(stage: BatchStage, cancel: bool, event: BatchEvent) -> BatchStage {
    match (stage, event) {
        (stage, BatchEvent::Failed(e)) => if can_fail(stage) {
            BatchStage::Done(Err(e))
        } else {
            stage
        },
        (BatchStage::OpenWallet, BatchEvent::Finished) => BatchStage::OpenCache,
        (BatchStage::OpenCache, BatchEvent::Finished) => BatchStage::Connect,
        (BatchStage::Connect, BatchEvent::Finished) => BatchStage::FetchTip,
        (BatchStage::FetchTip, BatchEvent::Tip(sent)) => BatchStage::UpdateTip(height_of(sent)),
        (BatchStage::UpdateTip(_), BatchEvent::Finished) => BatchStage::SuggestRanges,
        (BatchStage::SuggestRanges, BatchEvent::Ranges(ranges)) => match first_wanted(ranges@) {
            None => BatchStage::Done(Ok(())),
            Some(range) => if cancel {
                BatchStage::Done(Ok(()))
            } else {
                BatchStage::FetchChainState(blocks_of(range))
            },
        },
        (BatchStage::FetchChainState(blocks), BatchEvent::Finished) => BatchStage::FetchBlocks(
            blocks,
        ),
        (BatchStage::FetchBlocks(blocks), BatchEvent::Blocks(count)) => if count == 0 {
            BatchStage::Done(Ok(()))
        } else {
            BatchStage::InsertBlocks(blocks)
        },
        (BatchStage::InsertBlocks(blocks), BatchEvent::Finished) => BatchStage::ScanBlocks(blocks),
        (BatchStage::ScanBlocks(blocks), BatchEvent::Finished) => BatchStage::Clear(blocks),
        (BatchStage::Clear(_), BatchEvent::Finished) => BatchStage::Done(Ok(())),
        (stage, _) => stage,
    }
}

/// Starts the batch of an inactive wallet.
pub fn sync_inactive_wallet_batch() -> (r: BatchStage)
    ensures
        r == BatchStage::OpenWallet,
{
    BatchStage::OpenWallet
}

fn find_wanted(ranges: &Vec<ScanRange>) -> (r: Option<ScanRange>)
    ensures
        r == first_wanted(ranges@),
{
    let mut i: usize = 0;
    assert(ranges@.skip(0) =~= ranges@);
    while i < ranges.len()
        invariant
            i <= ranges.len(),
            first_wanted(ranges@) == first_wanted(ranges@.skip(i as int)),
        decreases ranges.len() - i,
    {
        if wants_scan(&ranges[i]) {
            return Some(ranges[i]);
        }
        assert(ranges@.skip(i as int).drop_first() =~= ranges@.skip(i + 1));
        i = i + 1;
    }
    None
}

impl BatchStage {
    /// Goes on with what came of the step that the batch waited for.
    pub fn step(self, sync: &SyncControl, event: BatchEvent) -> (r: BatchStage)
        ensures
            r == inactive_batch_next(self, sync.cancel, event),
    {
        match (self, event) {
            (stage, BatchEvent::Failed(e)) => {
                match stage {
                    BatchStage::ScanBlocks(_) | BatchStage::Clear(_) | BatchStage::Done(_) => stage,
                    _ => BatchStage::Done(Err(e)),
                }
            },
            (BatchStage::OpenWallet, BatchEvent::Finished) => BatchStage::OpenCache,
            (BatchStage::OpenCache, BatchEvent::Finished) => BatchStage::Connect,
            (BatchStage::Connect, BatchEvent::Finished) => BatchStage::FetchTip,
            (BatchStage::FetchTip, BatchEvent::Tip(sent)) => BatchStage::UpdateTip(
                block_height(sent),
            ),
            (BatchStage::UpdateTip(_), BatchEvent::Finished) => BatchStage::SuggestRanges,
            (BatchStage::SuggestRanges, BatchEvent::Ranges(ranges)) => match find_wanted(&ranges) {
                None => BatchStage::Done(Ok(())),
                Some(range) => {
                    if sync.cancel {
                        BatchStage::Done(Ok(()))
                    } else {
                        let end = batch_end(range.start, range.end, INACTIVE_BATCH_SIZE);
                        BatchStage::FetchChainState(Blocks { start: range.start, end })
                    }
                },
            },
            (BatchStage::FetchChainState(blocks), BatchEvent::Finished) => BatchStage::FetchBlocks(
                blocks,
            ),
            (BatchStage::FetchBlocks(blocks), BatchEvent::Blocks(count)) => {
                if count == 0 {
                    BatchStage::Done(Ok(()))
                } else {
                    BatchStage::InsertBlocks(blocks)
                }
            },
            (BatchStage::InsertBlocks(blocks), BatchEvent::Finished) => BatchStage::ScanBlocks(
                blocks,
            ),
            (BatchStage::ScanBlocks(blocks), BatchEvent::Finished) => BatchStage::Clear(blocks),
            (BatchStage::Clear(_), BatchEvent::Finished) => BatchStage::Done(Ok(())),
            (stage, _) => stage,
        }
    }
}

impl Blocks {
    /// How many blocks there are.
    pub fn count(&self) -> (r: u32)
        requires
            self.start <= self.end,
        ensures
            r == self.end - self.start,
    {
        self.end - self.start
    }
}

// ---------------------------------------------------------------------------
// All of them
// ---------------------------------------------------------------------------

/// What the round of the inactive wallets waits for.
#[derive(Clone, Copy, Debug, PartialEq, Eq, Structural)]
pub enum InactiveStage {
    /// Look whether the wallet at this position is there.
    Look(usize),
    /// Run a batch of the wallet; what comes of it is of no matter.
    Batch(usize),
    /// Finished.
    Done,
}

/// The round of the inactive wallets.
#[derive(Debug)]
pub struct InactiveRound {
    /// The wallets that were registered when the round started.
    pub wallets: Vec<InactiveWallet>,
    pub stage: InactiveStage,
}

/// What came of the step that the round waited for.
#[derive(Clone, Copy, Debug, PartialEq, Eq, Structural)]
pub enum InactiveEvent {
    /// Whether the wallet database is there.
    Exists(bool),
    /// The batch has ended.
    Ended,
}

/// At the wallet at position `at`: the round ends behind the last wallet, and
/// when the synchronisation was asked to stop.
pub open spec fn at_wallet(count: int, cancel: bool, at: int) -> InactiveStage {
    if at < count && !cancel {
        InactiveStage::Look(at as usize)
    } else {
        InactiveStage::Done
    }
}

/// The round after `event`; an event that it does not wait for changes nothing.
pub open spec fn round_next(r: InactiveRound, cancel: bool, event: InactiveEvent) -> InactiveRound {
    match (r.stage, event) {
        (InactiveStage::Look(at), InactiveEvent::Exists(there)) => InactiveRound {
            stage: if there {
                InactiveStage::Batch(at)
            } else {
                at_wallet(r.wallets@.len() as int, cancel, at + 1)
            },
            ..r
        },
        (InactiveStage::Batch(at), InactiveEvent::Ended) => InactiveRound {
            stage: at_wallet(r.wallets@.len() as int, cancel, at + 1),
            ..r
        },
        _ => r,
    }
}

fn stage_behind(count: usize, cancel: bool, at: usize) -> (r: InactiveStage)
    ensures
        r == at_wallet(count as int, cancel, at + 1),
{
    if at < count && count - at > 1 && !cancel {
        InactiveStage::Look(at + 1)
    } else {
        InactiveStage::Done
    }
}

/// Starts a round of the wallets that are registered now.
pub fn sync_inactive_wallets(sync: &SyncControl) -> (r: InactiveRound)
    ensures
        r.wallets@ == sync.inactive@,
        r.stage == at_wallet(sync.inactive@.len() as int, sync.cancel, 0),
        r.wf(),
{
    let mut wallets: Vec<InactiveWallet> = Vec::new();
    for i in 0..sync.inactive.len()
        invariant
            wallets@ == sync.inactive@.take(i as int),
    {
        wallets.push(sync.inactive[i].clone());
        assert(sync.inactive@.take(i + 1) =~= sync.inactive@.take(i as int).push(
            sync.inactive@[i as int],
        ));
    }
    assert(sync.inactive@.take(sync.inactive@.len() as int) =~= sync.inactive@);
    let stage = if wallets.len() > 0 && !sync.cancel {
        InactiveStage::Look(0)
    } else {
        InactiveStage::Done
    };
    InactiveRound { wallets, stage }
}

impl InactiveRound {
    /// The wallet that has its turn is one of the wallets.
    pub open spec fn wf(&self) -> bool {
        match self.stage {
            InactiveStage::Look(at) | InactiveStage::Batch(at) => at < self.wallets@.len(),
            InactiveStage::Done => true,
        }
    }

    /// Goes on with what came of the step that the round waited for.
    pub fn step(self, sync: &SyncControl, event: InactiveEvent) -> (r: InactiveRound)
        ensures
            r == round_next(self, sync.cancel, event),
            self.wf() ==> r.wf(),
    {
        let InactiveRound { wallets, stage } = self;
        let count = wallets.len();
        let next = match (stage, event) {
            (InactiveStage::Look(at), InactiveEvent::Exists(there)) => {
                if there {
                    InactiveStage::Batch(at)
                } else {
                    stage_behind(count, sync.cancel, at)
                }
            },
            (InactiveStage::Batch(at), InactiveEvent::Ended) => stage_behind(
                count,
                sync.cancel,
                at,
            ),
            (other, _) => other,
        };
        InactiveRound { wallets, stage: next }
    }
}

// ---------------------------------------------------------------------------
// Laws
// ---------------------------------------------------------------------------

/// A wallet gets blocks of the range that it wants most, from the start of the
/// range, and at most five hundred of them.
pub proof fn law_a_batch_stays_in_its_range(range: ScanRange)
    requires
        range.start <= range.end,
    ensures
        ({
            let blocks = blocks_of(range);
            &&& blocks.start == range.start
            &&& blocks.start <= blocks.end <= range.end
            &&& blocks.end - blocks.start <= INACTIVE_BATCH_SIZE
            &&& range.start < range.end ==> blocks.start < blocks.end
        }),
{
}

/// The first wanted range is one of the ranges, it is wanted, and none before it
/// is.
pub proof fn law_the_first_wanted_range_is_served(ranges: Seq<ScanRange>)
    ensures
        match first_wanted(ranges) {
            Some(range) => exists|i: int|
                {
                    &&& 0 <= i < ranges.len()
                    &&& #[trigger] ranges[i] == range
                    &&& is_wanted(range)
                    &&& forall|j: int| 0 <= j < i ==> !is_wanted(#[trigger] ranges[j])
                },
            None => forall|j: int| 0 <= j < ranges.len() ==> !is_wanted(#[trigger] ranges[j]),
        },
    decreases ranges.len(),
{
    if ranges.len() > 0 && !is_wanted(ranges[0]) {
        let rest = ranges.drop_first();
        law_the_first_wanted_range_is_served(rest);
        assert(forall|j: int| 0 <= j < rest.len() ==> rest[j] == ranges[j + 1]);
        assert forall|j: int|
            0 < j < ranges.len() && !is_wanted(#[trigger] rest[j - 1]) implies !is_wanted(
            ranges[j],
        ) by {
            assert(rest[j - 1] == ranges[j]);
        }
        match first_wanted(rest) {
            Some(range) => {
                let i = choose|i: int|
                    {
                        &&& 0 <= i < rest.len()
                        &&& #[trigger] rest[i] == range
                        &&& is_wanted(range)
                        &&& forall|j: int| 0 <= j < i ==> !is_wanted(#[trigger] rest[j])
                    };
                assert(ranges[i + 1] == range);
                assert forall|j: int| 0 <= j < i + 1 implies !is_wanted(#[trigger] ranges[j]) by {
                    if j > 0 {
                        assert(rest[j - 1] == ranges[j]);
                    }
                }
            },
            None => {
                assert forall|j: int| 0 <= j < ranges.len() implies !is_wanted(
                    #[trigger] ranges[j],
                ) by {
                    if j > 0 {
                        assert(rest[j - 1] == ranges[j]);
                    }
                }
            },
        }
    }
}

/// Blocks that were stored are scanned and removed again, whatever the scan
/// says, and the batch then ends well.
pub proof fn law_stored_blocks_are_removed(
    blocks: Blocks,
    e: SyncError,
    c1: bool,
    c2: bool,
    c3: bool,
)
    ensures
        ({
            let s1 = inactive_batch_next(BatchStage::InsertBlocks(blocks), c1, BatchEvent::Finished);
            let s2 = inactive_batch_next(s1, c2, BatchEvent::Finished);
            let s3 = inactive_batch_next(s2, c3, BatchEvent::Finished);
            &&& s1 == BatchStage::ScanBlocks(blocks)
            &&& inactive_batch_next(s1, c2, BatchEvent::Failed(e)) == s1
            &&& s2 == BatchStage::Clear(blocks)
            &&& s3 == BatchStage::Done(Ok(()))
        }),
{
}

/// Once the synchronisation was asked to stop, no blocks are fetched for a
/// wallet that was not at it yet, and no other wallet has its turn.
pub proof fn law_a_cancelled_round_starts_nothing(
    stage: BatchStage,
    event: BatchEvent,
    round: InactiveRound,
    step: InactiveEvent,
)
    ensures
        inactive_batch_next(stage, true, event) is FetchChainState ==> stage is FetchChainState,
        round_next(round, true, step).stage is Look ==> round.stage is Look,
        round_next(round, true, step).stage is Look ==> round_next(round, true, step) == round,
{
}

/// The wallets have their turns in order, each once.
pub proof fn law_each_wallet_has_one_turn(round: InactiveRound, cancel: bool, event: InactiveEvent)
    requires
        round.wf(),
    ensures
        ({
            let next = round_next(round, cancel, event);
            &&& next.wallets == round.wallets
            &&& round.stage matches InactiveStage::Look(at) ==> {
                ||| next == round
                ||| next.stage == InactiveStage::Batch(at)
                ||| next.stage == at_wallet(round.wallets@.len() as int, cancel, at + 1)
            }
            &&& round.stage matches InactiveStage::Batch(at) ==> {
                ||| next == round
                ||| next.stage == at_wallet(round.wallets@.len() as int, cancel, at + 1)
            }
            &&& round.stage is Done ==> next == round
        }),
{
}

/// The range ranks above one that was scanned.
pub open spec fn ranks_above_scanned(range: ScanRange) -> bool {
    rank(range.priority) > 1
}

/// A wallet gets the blocks at the start of the first suggested range that ranks
/// above a scanned one, whatever its priority: five hundred of them, or all where
/// there are fewer. Where there is no such range, or the synchronisation was asked
/// to stop, the batch ends well.
pub proof fn law_the_most_wanted_blocks_are_fetched(
    suggested: Vec<ScanRange>,
    cancel: bool,
    i: int,
)
    ensures
        ({
            let next = inactive_batch_next(
                BatchStage::SuggestRanges,
                cancel,
                BatchEvent::Ranges(suggested),
            );
            let range = suggested@[i];
            &&& !cancel && 0 <= i < suggested@.len() && ranks_above_scanned(range) && (forall|j: int|
                0 <= j < i ==> !ranks_above_scanned(#[trigger] suggested@[j])) ==> {
                &&& next is FetchChainState
                &&& next->FetchChainState_0.start == range.start
                &&& next->FetchChainState_0.end == if range.end - range.start > 500 {
                    range.start + 500
                } else {
                    range.end as int
                }
            }
            &&& cancel || (forall|j: int|
                0 <= j < suggested@.len() ==> !ranks_above_scanned(#[trigger] suggested@[j]))
                ==> next == BatchStage::Done(Ok(()))
        }),
{
    let ranges = suggested@;
    law_the_first_wanted_range_is_served(ranges);
    assert forall|j: int| 0 <= j < ranges.len() implies is_wanted(#[trigger] ranges[j])
        == ranks_above_scanned(ranges[j]) by {
        law_rank_decides_what_is_scanned(ranges[j]);
    }
    if 0 <= i < ranges.len() && ranks_above_scanned(ranges[i]) && (forall|j: int|
        0 <= j < i ==> !ranks_above_scanned(#[trigger] ranges[j])) {
        assert(is_wanted(ranges[i]));
        assert(first_wanted(ranges) is Some);
        let k = choose|k: int|
            {
                &&& 0 <= k < ranges.len()
                &&& #[trigger] ranges[k] == first_wanted(ranges)->0
                &&& is_wanted(ranges[k])
                &&& forall|j: int| 0 <= j < k ==> !is_wanted(#[trigger] ranges[j])
            };
        assert(ranks_above_scanned(ranges[k]));
        assert(k == i);
    }
    if forall|j: int| 0 <= j < ranges.len() ==> !ranks_above_scanned(#[trigger] ranges[j]) {
        if let Some(range) = first_wanted(ranges) {
            let k = choose|k: int|
                0 <= k < ranges.len() && #[trigger] ranges[k] == range && is_wanted(range);
            assert(ranks_above_scanned(ranges[k]));
        }
    }
}

/// The batch of a wallet goes its way: the wallet and its cache are opened, the
/// server says how high the chain is, the wallet is told so and asked what to
/// scan. A request to stop changes none of that.
pub proof fn law_a_batch_begins_at_the_tip(sent: u64, cancel: bool)
    ensures
        inactive_batch_next(BatchStage::OpenWallet, cancel, BatchEvent::Finished)
            == BatchStage::OpenCache,
        inactive_batch_next(BatchStage::OpenCache, cancel, BatchEvent::Finished)
            == BatchStage::Connect,
        inactive_batch_next(BatchStage::Connect, cancel, BatchEvent::Finished)
            == BatchStage::FetchTip,
        ({
            let told = inactive_batch_next(BatchStage::FetchTip, cancel, BatchEvent::Tip(sent));
            &&& told is UpdateTip
            &&& sent <= u32::MAX ==> told->UpdateTip_0 == sent
            &&& (sent - told->UpdateTip_0) % 0x1_0000_0000 == 0
            &&& inactive_batch_next(told, cancel, BatchEvent::Finished)
                == BatchStage::SuggestRanges
        }),
{
}

/// The blocks that a wallet gets are the same from the chain state before them to
/// their removal. One block that came is enough to go on; where none came, the
/// batch ends well.
pub proof fn law_a_batch_keeps_its_blocks(blocks: Blocks, count: usize, cancel: bool)
    ensures
        inactive_batch_next(BatchStage::FetchChainState(blocks), cancel, BatchEvent::Finished)
            == BatchStage::FetchBlocks(blocks),
        inactive_batch_next(BatchStage::FetchBlocks(blocks), cancel, BatchEvent::Blocks(count))
            == if count >= 1 {
            BatchStage::InsertBlocks(blocks)
        } else {
            BatchStage::Done(Ok(()))
        },
        inactive_batch_next(BatchStage::InsertBlocks(blocks), cancel, BatchEvent::Finished)
            == BatchStage::ScanBlocks(blocks),
        inactive_batch_next(BatchStage::ScanBlocks(blocks), cancel, BatchEvent::Finished)
            == BatchStage::Clear(blocks),
        inactive_batch_next(BatchStage::Clear(blocks), cancel, BatchEvent::Finished)
            == BatchStage::Done(Ok(())),
{
}

/// A step that fails before the blocks are scanned ends the batch with its error;
/// from there on a failure is of no matter. What was not asked for changes
/// nothing.
pub proof fn law_a_failed_step_ends_the_batch(
    stage: BatchStage,
    cancel: bool,
    e: SyncError,
    event: BatchEvent,
)
    ensures
        stage is OpenWallet || stage is OpenCache || stage is Connect || stage is FetchTip
            || stage is UpdateTip || stage is SuggestRanges || stage is FetchChainState
            || stage is FetchBlocks || stage is InsertBlocks ==> inactive_batch_next(
            stage,
            cancel,
            BatchEvent::Failed(e),
        ) == BatchStage::Done(Err(e)),
        stage is ScanBlocks || stage is Clear || stage is Done ==> inactive_batch_next(
            stage,
            cancel,
            BatchEvent::Failed(e),
        ) == stage,
        stage is Done ==> inactive_batch_next(stage, cancel, event) == stage,
        event is Tip && !(stage is FetchTip) ==> inactive_batch_next(stage, cancel, event) == stage,
        event is Ranges && !(stage is SuggestRanges) ==> inactive_batch_next(stage, cancel, event)
            == stage,
        event is Blocks && !(stage is FetchBlocks) ==> inactive_batch_next(stage, cancel, event)
            == stage,
        event is Finished && (stage is FetchTip || stage is SuggestRanges || stage is FetchBlocks)
            ==> inactive_batch_next(stage, cancel, event) == stage,
{
}

/// A wallet that is there gets its batch, and one that is not is passed over.
/// Behind each comes the next, until there is none or the synchronisation was
/// asked to stop.
pub proof fn law_every_wallet_has_its_turn(
    round: InactiveRound,
    cancel: bool,
    at: usize,
    there: bool,
)
    requires
        at < round.wallets@.len(),
        round.stage == InactiveStage::Look(at) || round.stage == InactiveStage::Batch(at),
    ensures
        ({
            let event = if round.stage is Look {
                InactiveEvent::Exists(there)
            } else {
                InactiveEvent::Ended
            };
            let next = round_next(round, cancel, event);
            &&& next.wallets == round.wallets
            &&& round.stage is Look && there ==> next.stage == InactiveStage::Batch(at)
            &&& !(round.stage is Look && there) && !cancel && at + 1 < round.wallets@.len()
                ==> next.stage is Look && next.stage->Look_0 == at + 1
            &&& !(round.stage is Look && there) && (cancel || at + 1 == round.wallets@.len())
                ==> next.stage == InactiveStage::Done
            &&& round.stage is Look ==> round_next(round, cancel, InactiveEvent::Ended) == round
            &&& round.stage is Batch ==> round_next(round, cancel, InactiveEvent::Exists(there))
                == round
        }),
{
    assert(round.wallets.len() == round.wallets@.len());
}

/// A round starts at the first wallet, where there is one and nothing asked it to
/// stop.
pub proof fn law_a_round_starts_at_the_first_wallet(count: int)
    ensures
        count >= 1 ==> at_wallet(count, false, 0) == InactiveStage::Look(0),
        count <= 0 ==> at_wallet(count, false, 0) == InactiveStage::Done,
        at_wallet(count, true, 0) == InactiveStage::Done,
{
}

} // verus!
