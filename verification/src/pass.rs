//! One pass of the synchronisation: from opening the wallet to the point where
//! nothing is left to scan.
use vstd::prelude::*;

use crate::sync::{SyncControl, SyncProgressInfo};
use crate::text::{contains, joined};

verus! {

// ---------------------------------------------------------------------------
// What is scanned
// ---------------------------------------------------------------------------

/// A shielded pool.
#[derive(Clone, Copy, Debug, PartialEq, Eq, Structural)]
pub enum Pool {
    Sapling,
    Orchard,
}

/// How urgent it is to scan a range of blocks, from lowest to highest.
#[derive(Clone, Copy, Debug, PartialEq, Eq, Structural)]
pub enum ScanPriority {
    Ignored,
    Scanned,
    Historic,
    OpenAdjacent,
    FoundNote,
    ChainTip,
    Verify,
}

/// The blocks from `start` up to, not including, `end`.
#[derive(Clone, Copy, Debug, PartialEq, Eq, Structural)]
pub struct ScanRange {
    pub start: u32,
    pub end: u32,
    pub priority: ScanPriority,
}

/// The root of a finished subtree of a note commitment tree, and the height of
/// the block that finished it.
#[derive(Clone, Copy, Debug, PartialEq, Eq)]
pub struct SubtreeRoot {
    pub height: u32,
    pub hash: [u8; 32],
}

/// How many blocks a pass downloads and scans at a time.
pub const BATCH_SIZE: u32 = 100;

/// The range is to be scanned: its priority is above that of a scanned range.
pub open spec fn is_wanted(range: ScanRange) -> bool {
    !(range.priority is Ignored || range.priority is Scanned)
}

/// The range is to be scanned, and there are blocks in it.
pub open spec fn is_scannable(range: ScanRange) -> bool {
    is_wanted(range) && range.start < range.end
}

/// Some range at or behind position `from` is to be scanned.
pub open spec fn any_wanted(ranges: Seq<ScanRange>, from: int) -> bool {
    exists|i: int| from <= i < ranges.len() && is_wanted(#[trigger] ranges[i])
}

/// The first range at or behind position `from` that is to be scanned and has
/// blocks.
pub open spec fn first_scannable(ranges: Seq<ScanRange>, from: int) -> Option<int>
    decreases ranges.len() - from,
{
    if from >= ranges.len() {
        None
    } else if is_scannable(ranges[from]) {
        Some(from)
    } else {
        first_scannable(ranges, from + 1)
    }
}

/// Whether the range is to be scanned.
pub fn wants_scan(range: &ScanRange) -> (r: bool)
    ensures
        r == is_wanted(*range),
{
    match range.priority {
        ScanPriority::Ignored | ScanPriority::Scanned => false,
        _ => true,
    }
}

/// Where the batch that starts at `from` ends, in a range that ends at `end`.
pub open spec fn batch_limit(from: u32, end: u32, size: u32) -> u32 {
    if from + size < end {
        (from + size) as u32
    } else {
        end
    }
}

/// Where the batch that starts at `from` ends, in a range that ends at `end`.
pub fn batch_end(from: u32, end: u32, size: u32) -> (r: u32)
    ensures
        r == batch_limit(from, end, size),
{
    let next: u32 = from.saturating_add(size);
    if next < end {
        next
    } else {
        end
    }
}

/// The texts that a scan error holds where the chain that was scanned before is
/// no longer the chain.
pub open spec fn is_reorg_text(text: Seq<char>) -> bool {
    ||| crate::text::occurs(text, "PrevHash"@)
    ||| crate::text::occurs(text, "Continuity"@)
    ||| crate::text::occurs(text, "ChainInvalid"@)
    ||| crate::text::occurs(text, "BlockConflict"@)
}

/// Whether a scan error says that the chain was reorganised.
pub fn is_reorg(text: &str) -> (r: bool)
    ensures
        r == is_reorg_text(text@),
{
    contains(text, "PrevHash") || contains(text, "Continuity") || contains(text, "ChainInvalid")
        || contains(text, "BlockConflict")
}

// ---------------------------------------------------------------------------
// What goes wrong
// ---------------------------------------------------------------------------

/// A call whose failure is reported under its name.
#[derive(Clone, Copy, Debug, PartialEq, Eq, Structural)]
pub enum Call {
    SubtreeRoots(Pool),
    SubtreeRootStream(Pool),
    PutSubtreeRoots(Pool),
    LatestBlock,
    UpdateChainTip,
    SuggestScanRanges,
    TreeState,
    ChainState,
    BlockRange,
    BlockStream,
    InsertBlocks,
    TruncateToHeight,
}

/// Why a pass ended early.
#[derive(Debug)]
pub enum SyncError {
    Cancelled,
    /// A failure reported in its own words.
    Plain(String),
    /// A failure reported under the name of a call.
    Call(Call, String),
}

/// What stands before the words of a failed call.
pub open spec fn call_prefix(call: Call) -> Seq<char> {
    match call {
        Call::SubtreeRoots(Pool::Sapling) => "get_subtree_roots(sapling): "@,
        Call::SubtreeRoots(Pool::Orchard) => "get_subtree_roots(orchard): "@,
        Call::SubtreeRootStream(Pool::Sapling) => "sapling subtree roots: "@,
        Call::SubtreeRootStream(Pool::Orchard) => "orchard subtree roots: "@,
        Call::PutSubtreeRoots(Pool::Sapling) => "put_sapling_subtree_roots: "@,
        Call::PutSubtreeRoots(Pool::Orchard) => "put_orchard_subtree_roots: "@,
        Call::LatestBlock => "get_latest_block: "@,
        Call::UpdateChainTip => "update_chain_tip: "@,
        Call::SuggestScanRanges => "suggest_scan_ranges: "@,
        Call::TreeState => "get_tree_state: "@,
        Call::ChainState => "to_chain_state: "@,
        Call::BlockRange => "get_block_range: "@,
        Call::BlockStream => "stream block: "@,
        Call::InsertBlocks => "insert_blocks: "@,
        Call::TruncateToHeight => "truncate_to_height: "@,
    }
}

/// The error in words.
pub open spec fn sync_error_text(e: SyncError) -> Seq<char> {
    match e {
        SyncError::Cancelled => "Sync cancelled"@,
        SyncError::Plain(text) => text@,
        SyncError::Call(call, text) => call_prefix(call) + text@,
    }
}

fn prefix_of(call: Call) -> (r: &'static str)
    ensures
        r@ == call_prefix(call),
{
    match call {
        Call::SubtreeRoots(Pool::Sapling) => "get_subtree_roots(sapling): ",
        Call::SubtreeRoots(Pool::Orchard) => "get_subtree_roots(orchard): ",
        Call::SubtreeRootStream(Pool::Sapling) => "sapling subtree roots: ",
        Call::SubtreeRootStream(Pool::Orchard) => "orchard subtree roots: ",
        Call::PutSubtreeRoots(Pool::Sapling) => "put_sapling_subtree_roots: ",
        Call::PutSubtreeRoots(Pool::Orchard) => "put_orchard_subtree_roots: ",
        Call::LatestBlock => "get_latest_block: ",
        Call::UpdateChainTip => "update_chain_tip: ",
        Call::SuggestScanRanges => "suggest_scan_ranges: ",
        Call::TreeState => "get_tree_state: ",
        Call::ChainState => "to_chain_state: ",
        Call::BlockRange => "get_block_range: ",
        Call::BlockStream => "stream block: ",
        Call::InsertBlocks => "insert_blocks: ",
        Call::TruncateToHeight => "truncate_to_height: ",
    }
}

impl SyncError {
    /// The error in words.
    pub fn message(&self) -> (r: String)
        ensures
            r@ == sync_error_text(*self),
    {
        match self {
            SyncError::Cancelled => "Sync cancelled".to_owned(),
            SyncError::Plain(text) => text.clone(),
            SyncError::Call(call, text) => joined(prefix_of(*call), text.as_str()),
        }
    }
}

// ---------------------------------------------------------------------------
// The pass
// ---------------------------------------------------------------------------

/// What a pass waits for.
#[derive(Debug)]
pub enum PassStage {
    /// Open the wallet database.
    OpenWallet,
    /// Open the block cache.
    OpenCache,
    /// Connect to the server.
    Connect,
    /// Find the index of the first shard that the wallet lacks.
    ShardIndex(Pool),
    /// Fetch the subtree roots from the given index on.
    FetchRoots(Pool, u64),
    /// Store the subtree roots from the given index on.
    PutRoots(Pool, u64, Vec<SubtreeRoot>),
    /// Ask the server for the height of the chain.
    FetchTip,
    /// Tell the wallet the height of the chain, `tip`.
    UpdateTip,
    /// Refresh the transparent outputs; whether that works is of no matter.
    RefreshUtxos,
    /// Ask the wallet what to scan.
    SuggestRanges,
    /// Ask the wallet up to which height everything is scanned.
    FullyScanned,
    /// Fetch the state of the chain before block `current`.
    FetchChainState,
    /// Download the blocks from `current` up to `batch_end`.
    FetchBlocks,
    /// Store the downloaded blocks in the cache.
    InsertBlocks,
    /// Scan the blocks of the cache from `current` up to `batch_end`.
    ScanBlocks,
    /// Remove the batch, which was scanned, from the cache.
    ClearScanned,
    /// Remove the batch, whose scan failed, from the cache; whether the chain
    /// was reorganised.
    ClearFailed(bool),
    /// Forget everything above the block before `current`.
    Truncate,
    /// Finished.
    Done(Result<(), SyncError>),
}

/// One pass of the synchronisation.
#[derive(Debug)]
pub struct SyncPass {
    /// Whether the subtree roots are brought up to date first.
    pub update_roots: bool,
    /// The height of the chain.
    pub tip: u32,
    /// The ranges of this round.
    pub ranges: Vec<ScanRange>,
    /// The position of the range that is being scanned.
    pub range: usize,
    /// Where the batch starts.
    pub current: u32,
    /// Where the batch ends.
    pub batch_end: u32,
    /// Whether this round has changed anything.
    pub any_scanned: bool,
    pub stage: PassStage,
}

/// What came of the step that a pass waited for.
#[derive(Debug)]
pub enum PassEvent {
    /// The step was carried out.
    Finished,
    /// The step failed.
    Failed(SyncError),
    /// The index of the first shard that the wallet lacks.
    ShardIndex(u64),
    /// The subtree roots from that index on.
    Roots(Vec<SubtreeRoot>),
    /// The height of the chain, as the server gives it.
    Tip(u64),
    /// What the wallet suggests to scan.
    Ranges(Vec<ScanRange>),
    /// Up to which height everything is scanned; 0 where that is not known.
    FullyScanned(u32),
    /// How many blocks came.
    Blocks(usize),
    /// The batch was scanned up to the given height.
    Scanned(u32),
    /// The scan of the batch failed.
    ScanFailed(String),
}

/// The block height that a server sends as 64 bits.
pub open spec fn height_of(sent: u64) -> u32 {
    (sent % 0x1_0000_0000) as u32
}

/// The block height that a server sends as 64 bits: its low half.
pub fn block_height(sent: u64) -> (r: u32)
    ensures
        r == height_of(sent),
{
    (sent % 0x1_0000_0000) as u32
}

/// Before a new round: a cancelled pass goes no further.
pub open spec fn at_round(p: SyncPass, cancel: bool) -> SyncPass {
    SyncPass {
        stage: if cancel {
            PassStage::Done(Err(SyncError::Cancelled))
        } else {
            PassStage::FetchTip
        },
        ..p
    }
}

/// After the last range of a round: one that changed something is followed by
/// another.
pub open spec fn at_round_end(p: SyncPass, cancel: bool) -> SyncPass {
    if p.any_scanned {
        at_round(p, cancel)
    } else {
        SyncPass { stage: PassStage::FullyScanned, ..p }
    }
}

/// At the batch that starts at `current`, in the range at position `range`.
pub open spec fn at_batch(p: SyncPass, range: int, current: u32) -> SyncPass {
    SyncPass {
        range: range as usize,
        current,
        batch_end: batch_limit(current, p.ranges@[range].end, BATCH_SIZE),
        stage: PassStage::FetchChainState,
        ..p
    }
}

/// Looking for the next range to scan, from position `from` on. A cancelled
/// pass goes no further at the first range that is to be scanned.
pub open spec fn at_range(p: SyncPass, cancel: bool, from: int) -> SyncPass {
    if cancel && any_wanted(p.ranges@, from) {
        SyncPass { stage: PassStage::Done(Err(SyncError::Cancelled)), ..p }
    } else {
        match first_scannable(p.ranges@, from) {
            Some(i) => at_batch(p, i, p.ranges@[i].start),
            None => at_round_end(p, cancel),
        }
    }
}

/// After a batch of the current range was scanned and removed from the cache.
pub open spec fn after_batch(p: SyncPass, cancel: bool) -> SyncPass {
    let q = SyncPass { current: p.batch_end, any_scanned: true, ..p };
    if p.range < p.ranges@.len() && p.batch_end < p.ranges@[p.range as int].end {
        if cancel {
            SyncPass { stage: PassStage::Done(Err(SyncError::Cancelled)), ..q }
        } else {
            at_batch(q, p.range as int, p.batch_end)
        }
    } else {
        at_range(q, cancel, p.range + 1)
    }
}

/// After the subtree roots of a pool.
pub open spec fn after_roots(p: SyncPass, cancel: bool, pool: Pool) -> SyncPass {
    match pool {
        Pool::Sapling => SyncPass { stage: PassStage::ShardIndex(Pool::Orchard), ..p },
        Pool::Orchard => at_round(p, cancel),
    }
}

/// The step can fail as a whole, and ends the pass when it does.
pub open spec fn can_fail(stage: PassStage) -> bool {
    match stage {
        PassStage::OpenWallet
        | PassStage::OpenCache
        | PassStage::Connect
        | PassStage::FetchRoots(_, _)
        | PassStage::PutRoots(_, _, _)
        | PassStage::FetchTip
        | PassStage::UpdateTip
        | PassStage::SuggestRanges
        | PassStage::FetchChainState
        | PassStage::FetchBlocks
        | PassStage::InsertBlocks
        | PassStage::Truncate => true,
        _ => false,
    }
}

/// The pass after `event`, where `cancel` says whether it was asked to stop. An
/// event that the stage does not wait for changes nothing.
pub open spec fn pass_next(p: SyncPass, cancel: bool, event: PassEvent) -> SyncPass {
    match (p.stage, event) {
        (stage, PassEvent::Failed(e)) => if can_fail(stage) {
            SyncPass { stage: PassStage::Done(Err(e)), ..p }
        } else {
            p
        },
        (PassStage::OpenWallet, PassEvent::Finished) => SyncPass { stage: PassStage::OpenCache, ..p },
        (PassStage::OpenCache, PassEvent::Finished) => SyncPass { stage: PassStage::Connect, ..p },
        (PassStage::Connect, PassEvent::Finished) => if p.update_roots {
            SyncPass { stage: PassStage::ShardIndex(Pool::Sapling), ..p }
        } else {
            at_round(p, cancel)
        },
        (PassStage::ShardIndex(pool), PassEvent::ShardIndex(start)) => SyncPass {
            stage: PassStage::FetchRoots(pool, start),
            ..p
        },
        (PassStage::FetchRoots(pool, start), PassEvent::Roots(roots)) => if roots@.len() == 0 {
            after_roots(p, cancel, pool)
        } else {
            SyncPass { stage: PassStage::PutRoots(pool, start, roots), ..p }
        },
        (PassStage::PutRoots(pool, _, _), PassEvent::Finished) => after_roots(p, cancel, pool),
        (PassStage::FetchTip, PassEvent::Tip(sent)) => SyncPass {
            tip: height_of(sent),
            stage: PassStage::UpdateTip,
            ..p
        },
        (PassStage::UpdateTip, PassEvent::Finished) => SyncPass {
            stage: PassStage::RefreshUtxos,
            ..p
        },
        (PassStage::RefreshUtxos, PassEvent::Finished) => SyncPass {
            stage: PassStage::SuggestRanges,
            ..p
        },
        (PassStage::SuggestRanges, PassEvent::Ranges(ranges)) => if ranges@.len() == 0 {
            SyncPass { stage: PassStage::FullyScanned, ..p }
        } else {
            at_range(SyncPass { ranges, any_scanned: false, ..p }, cancel, 0)
        },
        (PassStage::FullyScanned, PassEvent::FullyScanned(_)) => SyncPass {
            stage: PassStage::Done(Ok(())),
            ..p
        },
        (PassStage::FetchChainState, PassEvent::Finished) => SyncPass {
            stage: PassStage::FetchBlocks,
            ..p
        },
        (PassStage::FetchBlocks, PassEvent::Blocks(count)) => if count == 0 {
            at_range(p, cancel, p.range + 1)
        } else {
            SyncPass { stage: PassStage::InsertBlocks, ..p }
        },
        (PassStage::InsertBlocks, PassEvent::Finished) => SyncPass {
            stage: PassStage::ScanBlocks,
            ..p
        },
        (PassStage::ScanBlocks, PassEvent::Scanned(_)) => SyncPass {
            stage: PassStage::ClearScanned,
            ..p
        },
        (PassStage::ScanBlocks, PassEvent::ScanFailed(text)) => SyncPass {
            stage: PassStage::ClearFailed(is_reorg_text(text@)),
            ..p
        },
        (PassStage::ClearScanned, PassEvent::Finished) => after_batch(p, cancel),
        (PassStage::ClearFailed(reorg), PassEvent::Finished) => if reorg {
            SyncPass { stage: PassStage::Truncate, ..p }
        } else {
            at_range(p, cancel, p.range + 1)
        },
        (PassStage::Truncate, PassEvent::Finished) => at_range(
            SyncPass { any_scanned: true, ..p },
            cancel,
            p.range + 1,
        ),
        _ => p,
    }
}

/// The progress after `event`.
pub open spec fn progress_next(
    p: SyncPass,
    progress: SyncProgressInfo,
    event: PassEvent,
) -> SyncProgressInfo {
    match (p.stage, event) {
        (PassStage::UpdateTip, PassEvent::Finished) => SyncProgressInfo {
            latest_height: p.tip,
            connection_error: None,
            ..progress
        },
        (PassStage::FullyScanned, PassEvent::FullyScanned(height)) => if height > 0 {
            SyncProgressInfo { synced_height: height, ..progress }
        } else {
            progress
        },
        (PassStage::InsertBlocks, PassEvent::Finished) => SyncProgressInfo {
            scanning_up_to: p.batch_end,
            ..progress
        },
        (PassStage::ScanBlocks, PassEvent::Scanned(end)) => SyncProgressInfo {
            synced_height: end,
            ..progress
        },
        (PassStage::ClearScanned, PassEvent::Finished) => SyncProgressInfo {
            synced_height: p.batch_end,
            latest_height: p.tip,
            is_syncing: true,
            ..progress
        },
        _ => progress,
    }
}

impl SyncPass {
    /// The pass is at a batch: the batch lies in the range that is being
    /// scanned, which was to be scanned, and holds between one and a hundred
    /// blocks.
    pub open spec fn at_valid_batch(&self) -> bool {
        let r = self.ranges@[self.range as int];
        &&& self.range < self.ranges@.len()
        &&& is_wanted(r)
        &&& r.start <= self.current < self.batch_end <= r.end
        &&& self.batch_end == batch_limit(self.current, r.end, BATCH_SIZE)
        &&& (self.current - r.start) % BATCH_SIZE as int == 0
    }

    /// What holds of every pass that `sync_loop` started.
    pub open spec fn wf(&self) -> bool {
        match self.stage {
            PassStage::FetchChainState
            | PassStage::FetchBlocks
            | PassStage::InsertBlocks
            | PassStage::ScanBlocks
            | PassStage::ClearScanned
            | PassStage::ClearFailed(_)
            | PassStage::Truncate => self.at_valid_batch(),
            PassStage::ShardIndex(_) | PassStage::FetchRoots(_, _) => self.update_roots,
            PassStage::PutRoots(_, _, roots) => self.update_roots && roots@.len() > 0,
            _ => true,
        }
    }
}

// ---------------------------------------------------------------------------
// What the steps of a batch ask for
// ---------------------------------------------------------------------------

/// Blocks to download: from `start` to `end`, both included.
#[derive(Clone, Copy, Debug, PartialEq, Eq, Structural)]
pub struct BlockRequest {
    pub start: u64,
    pub end: u64,
}

/// The request is for the blocks from `from` up to, not including, `to`.
pub open spec fn is_request_for(r: BlockRequest, from: u32, to: u32) -> bool {
    r.start == from && r.end == to - 1
}

/// The request for the blocks from `from` up to, not including, `to`.
pub fn download_blocks(from: u32, to: u32) -> (r: BlockRequest)
    requires
        to > 0,
    ensures
        is_request_for(r, from, to),
{
    BlockRequest { start: from as u64, end: (to - 1) as u64 }
}

/// The height before `height`; the first block has none before it.
pub open spec fn height_before(height: u32) -> u32 {
    if height == 0 {
        0
    } else {
        (height - 1) as u32
    }
}

/// The height before `height`.
pub fn prior_height(height: u32) -> (r: u32)
    ensures
        r == height_before(height),
{
    height.saturating_sub(1)
}

impl SyncPass {
    /// The height whose tree state the batch starts from.
    pub fn chain_state_height(&self) -> (r: u64)
        ensures
            r == height_before(self.current),
    {
        prior_height(self.current) as u64
    }

    /// The request for the blocks of the batch.
    pub fn block_request(&self) -> (r: BlockRequest)
        requires
            self.at_valid_batch(),
        ensures
            is_request_for(r, self.current, self.batch_end),
    {
        download_blocks(self.current, self.batch_end)
    }

    /// How many blocks the batch spans.
    pub fn batch_len(&self) -> (r: u32)
        requires
            self.at_valid_batch(),
        ensures
            r == self.batch_end - self.current,
            1 <= r <= BATCH_SIZE,
    {
        self.batch_end - self.current
    }

    /// The height that the wallet goes back to after a reorganisation.
    pub fn reorg_height(&self) -> (r: u32)
        ensures
            r == height_before(self.current),
    {
        prior_height(self.current)
    }
}

/// Starts a pass. The subtree roots are brought up to date where `update_roots`
/// says so.
pub fn sync_loop(update_roots: bool) -> (r: SyncPass)
    ensures
        r.wf(),
        r.update_roots == update_roots,
        r.stage == PassStage::OpenWallet,
        r.ranges@.len() == 0,
        !r.any_scanned,
        r.tip == 0 && r.range == 0 && r.current == 0 && r.batch_end == 0,
{
    SyncPass {
        update_roots,
        tip: 0,
        ranges: Vec::new(),
        range: 0,
        current: 0,
        batch_end: 0,
        any_scanned: false,
        stage: PassStage::OpenWallet,
    }
}

/// A first scannable range lies at or behind `from`, and nothing before it is
/// scannable.
proof fn lemma_first_scannable(ranges: Seq<ScanRange>, from: int)
    requires
        0 <= from,
    ensures
        match first_scannable(ranges, from) {
            Some(i) => {
                &&& from <= i < ranges.len()
                &&& is_scannable(ranges[i])
                &&& forall|k: int| from <= k < i ==> !is_scannable(#[trigger] ranges[k])
            },
            None => forall|k: int|
                from <= k < ranges.len() ==> !is_scannable(#[trigger] ranges[k]),
        },
    decreases ranges.len() - from,
{
    if from < ranges.len() && !is_scannable(ranges[from]) {
        lemma_first_scannable(ranges, from + 1);
    }
}

impl SyncPass {
    fn round(self, cancel: bool) -> (r: SyncPass)
        ensures
            r == at_round(self, cancel),
            r.wf(),
    {
        let stage = if cancel {
            PassStage::Done(Err(SyncError::Cancelled))
        } else {
            PassStage::FetchTip
        };
        SyncPass { stage, ..self }
    }

    fn round_end(self, cancel: bool) -> (r: SyncPass)
        ensures
            r == at_round_end(self, cancel),
            r.wf(),
    {
        if self.any_scanned {
            self.round(cancel)
        } else {
            SyncPass { stage: PassStage::FullyScanned, ..self }
        }
    }

    fn batch(self, range: usize, current: u32) -> (r: SyncPass)
        requires
            range < self.ranges@.len(),
        ensures
            r == at_batch(self, range as int, current),
            ({
                let s = self.ranges@[range as int];
                &&& is_wanted(s)
                &&& s.start <= current < s.end
                &&& (current - s.start) % BATCH_SIZE as int == 0
            }) ==> r.wf(),
    {
        let limit = batch_end(current, self.ranges[range].end, BATCH_SIZE);
        SyncPass {
            range,
            current,
            batch_end: limit,
            stage: PassStage::FetchChainState,
            ..self
        }
    }

    fn next_range(self, cancel: bool, from: usize) -> (r: SyncPass)
        ensures
            r == at_range(self, cancel, from as int),
            r.wf(),
    {
        let mut i: usize = from;
        let ghost ranges = self.ranges@;
        while i < self.ranges.len()
            invariant
                from <= i,
                i <= ranges.len() || i == from,
                ranges == self.ranges@,
                first_scannable(ranges, from as int) == first_scannable(ranges, i as int),
                any_wanted(ranges, from as int) && cancel ==> any_wanted(ranges, i as int),
            decreases ranges.len() - i,
        {
            if wants_scan(&self.ranges[i]) {
                assert(is_wanted(ranges[i as int]));
                if cancel {
                    return SyncPass { stage: PassStage::Done(Err(SyncError::Cancelled)), ..self };
                }
                let start = self.ranges[i].start;
                if start < self.ranges[i].end {
                    return self.batch(i, start);
                }
            }
            assert(any_wanted(ranges, i as int) && cancel ==> any_wanted(ranges, i + 1));
            i = i + 1;
        }
        self.round_end(cancel)
    }

    fn behind_range(self, cancel: bool) -> (r: SyncPass)
        ensures
            r == at_range(self, cancel, self.range + 1),
            r.wf(),
    {
        let range = self.range;
        if range < self.ranges.len() {
            self.next_range(cancel, range + 1)
        } else {
            proof {
                lemma_first_scannable(self.ranges@, range + 1);
            }
            self.round_end(cancel)
        }
    }

    fn next_batch(self, cancel: bool) -> (r: SyncPass)
        ensures
            r == after_batch(self, cancel),
            self.at_valid_batch() ==> r.wf(),
    {
        let range = self.range;
        let current = self.batch_end;
        let inside = range < self.ranges.len() && current < self.ranges[range].end;
        let next = SyncPass { current, any_scanned: true, ..self };
        if inside {
            if cancel {
                SyncPass { stage: PassStage::Done(Err(SyncError::Cancelled)), ..next }
            } else {
                assert(self.at_valid_batch() ==> (current - self.ranges@[range as int].start)
                    % BATCH_SIZE as int == 0) by {
                    assert(self.at_valid_batch() ==> current == self.current + BATCH_SIZE);
                }
                next.batch(range, current)
            }
        } else {
            next.behind_range(cancel)
        }
    }

    fn roots_done(self, cancel: bool, pool: Pool) -> (r: SyncPass)
        ensures
            r == after_roots(self, cancel, pool),
            self.update_roots ==> r.wf(),
    {
        match pool {
            Pool::Sapling => SyncPass { stage: PassStage::ShardIndex(Pool::Orchard), ..self },
            Pool::Orchard => self.round(cancel),
        }
    }

    /// Goes on with what came of the step that the pass waited for, and notes
    /// the progress.
    pub fn step(self, sync: &mut SyncControl, event: PassEvent) -> (r: SyncPass)
        ensures
            r == pass_next(self, old(sync).cancel, event),
            self.wf() ==> r.wf(),
            *final(sync) == (SyncControl {
                progress: progress_next(self, old(sync).progress, event),
                ..*old(sync)
            }),
    {
        let cancel = sync.cancel;
        let SyncPass {
            update_roots,
            tip,
            ranges,
            range,
            current,
            batch_end,
            any_scanned,
            stage,
        } = self;
        let p = SyncPass {
            update_roots,
            tip,
            ranges,
            range,
            current,
            batch_end,
            any_scanned,
            stage: PassStage::OpenWallet,
        };
        match (stage, event) {
            (stage, PassEvent::Failed(e)) => {
                let fails = match &stage {
                    PassStage::OpenWallet
                    | PassStage::OpenCache
                    | PassStage::Connect
                    | PassStage::FetchRoots(_, _)
                    | PassStage::PutRoots(_, _, _)
                    | PassStage::FetchTip
                    | PassStage::UpdateTip
                    | PassStage::SuggestRanges
                    | PassStage::FetchChainState
                    | PassStage::FetchBlocks
                    | PassStage::InsertBlocks
                    | PassStage::Truncate => true,
                    _ => false,
                };
                if fails {
                    SyncPass { stage: PassStage::Done(Err(e)), ..p }
                } else {
                    SyncPass { stage, ..p }
                }
            },
            (PassStage::OpenWallet, PassEvent::Finished) => SyncPass {
                stage: PassStage::OpenCache,
                ..p
            },
            (PassStage::OpenCache, PassEvent::Finished) => SyncPass {
                stage: PassStage::Connect,
                ..p
            },
            (PassStage::Connect, PassEvent::Finished) => if update_roots {
                SyncPass { stage: PassStage::ShardIndex(Pool::Sapling), ..p }
            } else {
                p.round(cancel)
            },
            (PassStage::ShardIndex(pool), PassEvent::ShardIndex(start)) => SyncPass {
                stage: PassStage::FetchRoots(pool, start),
                ..p
            },
            (PassStage::FetchRoots(pool, start), PassEvent::Roots(roots)) => {
                if roots.len() == 0 {
                    p.roots_done(cancel, pool)
                } else {
                    SyncPass { stage: PassStage::PutRoots(pool, start, roots), ..p }
                }
            },
            (PassStage::PutRoots(pool, _, _), PassEvent::Finished) => p.roots_done(cancel, pool),
            (PassStage::FetchTip, PassEvent::Tip(sent)) => SyncPass {
                tip: block_height(sent),
                stage: PassStage::UpdateTip,
                ..p
            },
            (PassStage::UpdateTip, PassEvent::Finished) => {
                sync.progress.latest_height = tip;
                sync.progress.connection_error = None;
                SyncPass { stage: PassStage::RefreshUtxos, ..p }
            },
            (PassStage::RefreshUtxos, PassEvent::Finished) => SyncPass {
                stage: PassStage::SuggestRanges,
                ..p
            },
            (PassStage::SuggestRanges, PassEvent::Ranges(ranges)) => {
                if ranges.len() == 0 {
                    SyncPass { stage: PassStage::FullyScanned, ..p }
                } else {
                    let q = SyncPass { ranges, any_scanned: false, stage: PassStage::SuggestRanges, ..p };
                    q.next_range(cancel, 0)
                }
            },
            (PassStage::FullyScanned, PassEvent::FullyScanned(height)) => {
                if height > 0 {
                    sync.progress.synced_height = height;
                }
                SyncPass { stage: PassStage::Done(Ok(())), ..p }
            },
            (PassStage::FetchChainState, PassEvent::Finished) => SyncPass {
                stage: PassStage::FetchBlocks,
                ..p
            },
            (PassStage::FetchBlocks, PassEvent::Blocks(count)) => {
                if count == 0 {
                    p.behind_range(cancel)
                } else {
                    SyncPass { stage: PassStage::InsertBlocks, ..p }
                }
            },
            (PassStage::InsertBlocks, PassEvent::Finished) => {
                sync.progress.scanning_up_to = batch_end;
                SyncPass { stage: PassStage::ScanBlocks, ..p }
            },
            (PassStage::ScanBlocks, PassEvent::Scanned(end)) => {
                sync.progress.synced_height = end;
                SyncPass { stage: PassStage::ClearScanned, ..p }
            },
            (PassStage::ScanBlocks, PassEvent::ScanFailed(text)) => SyncPass {
                stage: PassStage::ClearFailed(is_reorg(text.as_str())),
                ..p
            },
            (PassStage::ClearScanned, PassEvent::Finished) => {
                sync.progress.synced_height = batch_end;
                sync.progress.latest_height = tip;
                sync.progress.is_syncing = true;
                p.next_batch(cancel)
            },
            (PassStage::ClearFailed(reorg), PassEvent::Finished) => {
                if reorg {
                    SyncPass { stage: PassStage::Truncate, ..p }
                } else {
                    p.behind_range(cancel)
                }
            },
            (PassStage::Truncate, PassEvent::Finished) => {
                let q = SyncPass { any_scanned: true, ..p };
                q.behind_range(cancel)
            },
            (stage, _) => SyncPass { stage, ..p },
        }
    }
}

// ---------------------------------------------------------------------------
// Laws
// ---------------------------------------------------------------------------

/// The pass after `k` batches were scanned without interruption.
pub open spec fn after_batches(p: SyncPass, k: nat) -> SyncPass
    decreases k,
{
    if k == 0 {
        p
    } else {
        after_batch(after_batches(p, (k - 1) as nat), false)
    }
}

/// A batch takes five steps: the chain state, the blocks, storing, scanning and
/// removing them. A request to stop that comes during the batch takes effect
/// behind it.
pub proof fn law_steps_of_a_batch(
    p: SyncPass,
    blocks: usize,
    end: u32,
    c1: bool,
    c2: bool,
    c3: bool,
    c4: bool,
    cancel: bool,
)
    requires
        p.stage is FetchChainState,
        blocks > 0,
    ensures
        ({
            let p1 = pass_next(p, c1, PassEvent::Finished);
            let p2 = pass_next(p1, c2, PassEvent::Blocks(blocks));
            let p3 = pass_next(p2, c3, PassEvent::Finished);
            let p4 = pass_next(p3, c4, PassEvent::Scanned(end));
            let p5 = pass_next(p4, cancel, PassEvent::Finished);
            &&& p1.stage is FetchBlocks
            &&& p2.stage is InsertBlocks
            &&& p3.stage is ScanBlocks
            &&& p4.stage is ClearScanned
            &&& p5 == after_batch(SyncPass { stage: PassStage::ClearScanned, ..p }, cancel)
        }),
{
}

/// The batches of a range follow each other without gap or overlap: after `k`
/// batches the pass is at the blocks from `k` times the batch size behind the
/// start of the range on, and the last batch ends where the range ends.
pub proof fn law_batches_tile_the_range(p: SyncPass, k: nat)
    requires
        p.wf(),
        p.stage is FetchChainState,
        p.current == p.ranges@[p.range as int].start,
        p.current + k * BATCH_SIZE < p.ranges@[p.range as int].end,
    ensures
        ({
            let q = after_batches(p, k);
            let end = p.ranges@[p.range as int].end;
            &&& q.stage is FetchChainState
            &&& q.ranges == p.ranges
            &&& q.range == p.range
            &&& q.current == p.current + k * BATCH_SIZE
            &&& q.batch_end == if p.current + (k + 1) * BATCH_SIZE < end {
                p.current + (k + 1) * BATCH_SIZE
            } else {
                end as int
            }
        }),
    decreases k,
{
    if k > 0 {
        assert((k - 1) * BATCH_SIZE + BATCH_SIZE == k * BATCH_SIZE) by (nonlinear_arith);
        law_batches_tile_the_range(p, (k - 1) as nat);
    }
    assert((k + 1) * BATCH_SIZE == k * BATCH_SIZE + BATCH_SIZE) by (nonlinear_arith);
}

/// A pass that was asked to stop starts no round and no batch; whatever it does
/// instead of one is to end as cancelled.
pub proof fn law_a_cancelled_pass_starts_nothing(p: SyncPass, event: PassEvent)
    requires
        p.wf(),
    ensures
        ({
            let q = pass_next(p, true, event);
            &&& q.stage is FetchTip ==> p.stage is FetchTip
            &&& q.stage is FetchChainState ==> p.stage is FetchChainState
        }),
{
    let from = p.range + 1;
    lemma_first_scannable(p.ranges@, from);
    if let PassEvent::Ranges(ranges) = event {
        lemma_first_scannable(ranges@, 0);
    }
}

/// A pass that ended stays as it is and reports nothing more.
pub proof fn law_an_ended_pass_rests(
    p: SyncPass,
    cancel: bool,
    progress: SyncProgressInfo,
    event: PassEvent,
)
    requires
        p.stage is Done,
    ensures
        pass_next(p, cancel, event) == p,
        progress_next(p, progress, event) == progress,
{
}

/// Blocks that were stored for a scan are removed from the cache behind it,
/// whatever the scan said: from the scan the pass goes nowhere but to the
/// removal of the very same batch.
pub proof fn law_scanned_blocks_are_removed(p: SyncPass, cancel: bool, event: PassEvent)
    requires
        p.stage is ScanBlocks,
    ensures
        ({
            let q = pass_next(p, cancel, event);
            &&& q.stage is ScanBlocks || q.stage is ClearScanned || q.stage is ClearFailed
            &&& q.current == p.current
            &&& q.batch_end == p.batch_end
        }),
{
}

/// A reorganisation is never the end of a pass: the wallet goes back to the
/// block before the batch, and the round counts as one that changed something,
/// so that another round follows it.
pub proof fn law_a_reorganisation_leads_to_another_round(
    p: SyncPass,
    text: String,
    c1: bool,
    c2: bool,
)
    requires
        p.wf(),
        p.stage is ScanBlocks,
        is_reorg_text(text@),
    ensures
        ({
            let p1 = pass_next(p, c1, PassEvent::ScanFailed(text));
            let p2 = pass_next(p1, c2, PassEvent::Finished);
            let p3 = pass_next(p2, false, PassEvent::Finished);
            &&& p1.stage == PassStage::ClearFailed(true)
            &&& p2.stage is Truncate
            &&& p2.current == p.current
            &&& p3.any_scanned
            &&& p3.stage is FetchTip || p3.stage is FetchChainState
        }),
{
}

/// A pass reports success only after a round in which the wallet had nothing to
/// suggest, or in which nothing was scanned and nothing scannable was left.
pub proof fn law_success_means_nothing_is_left(p: SyncPass, cancel: bool, event: PassEvent)
    requires
        p.wf(),
    ensures
        ({
            let q = pass_next(p, cancel, event);
            &&& q.stage == PassStage::Done(Ok(())) ==> p.stage is FullyScanned || p.stage
                == PassStage::Done(Ok(()))
            &&& q.stage is FullyScanned && !(p.stage is FullyScanned) ==> {
                ||| (p.stage is SuggestRanges && event is Ranges && event->Ranges_0@.len() == 0)
                ||| {
                    &&& !q.any_scanned
                    &&& first_scannable(
                        q.ranges@,
                        if p.stage is SuggestRanges {
                            0
                        } else {
                            p.range + 1
                        },
                    ) is None
                }
            }
        }),
{
}

/// The request of a batch names each of its blocks and no other.
pub proof fn law_the_request_covers_the_batch(p: SyncPass, r: BlockRequest, height: u32)
    requires
        p.at_valid_batch(),
        r.start == p.current,
        r.end == p.batch_end - 1,
    ensures
        r.start <= height <= r.end <==> p.current <= height < p.batch_end,
{
}

/// A pass and the progress that it notes.
pub open spec fn noted_next(
    p: (SyncPass, SyncProgressInfo),
    cancel: bool,
    event: PassEvent,
) -> (SyncPass, SyncProgressInfo) {
    (pass_next(p.0, cancel, event), progress_next(p.0, p.1, event))
}

/// The pass and its progress after these events, each with whether the pass was
/// asked to stop when it came.
pub open spec fn noted_run(
    p: (SyncPass, SyncProgressInfo),
    events: Seq<(bool, PassEvent)>,
) -> (SyncPass, SyncProgressInfo)
    decreases events.len(),
{
    if events.len() == 0 {
        p
    } else {
        noted_next(noted_run(p, events.drop_last()), events.last().0, events.last().1)
    }
}

/// The wallet was told the height of the chain in this round.
pub open spec fn knows_tip(stage: PassStage) -> bool {
    match stage {
        PassStage::RefreshUtxos
        | PassStage::SuggestRanges
        | PassStage::FullyScanned
        | PassStage::FetchChainState
        | PassStage::FetchBlocks
        | PassStage::InsertBlocks
        | PassStage::ScanBlocks
        | PassStage::ClearScanned
        | PassStage::ClearFailed(_)
        | PassStage::Truncate => true,
        PassStage::Done(Ok(_)) => true,
        _ => false,
    }
}

/// The pass asked the wallet up to which height everything is scanned, the
/// answer came at `i`, and `noted` shows it; where the wallet gave no height, the
/// one that was noted before still stands.
pub open spec fn is_last_word(
    start: (SyncPass, SyncProgressInfo),
    events: Seq<(bool, PassEvent)>,
    i: int,
    noted: SyncProgressInfo,
) -> bool {
    let (p, had) = noted_run(start, events.take(i));
    &&& 0 <= i < events.len()
    &&& p.stage is FullyScanned
    &&& events[i].1 is FullyScanned
    &&& noted.synced_height == if events[i].1->FullyScanned_0 > 0 {
        events[i].1->FullyScanned_0
    } else {
        had.synced_height
    }
}

/// At the end of a pass that succeeded, the progress shows the height of the
/// chain and no connection error. The height up to which everything is
/// synchronised is the one that the wallet gave last, where it gave one.
pub proof fn law_progress_after_success(
    start: SyncPass,
    progress: SyncProgressInfo,
    events: Seq<(bool, PassEvent)>,
)
    requires
        start.stage == PassStage::OpenWallet,
    ensures
        ({
            let (p, noted) = noted_run((start, progress), events);
            &&& knows_tip(p.stage) ==> {
                &&& noted.latest_height == p.tip
                &&& noted.connection_error is None
            }
            &&& p.stage == PassStage::Done(Ok(())) ==> exists|i: int|
                is_last_word((start, progress), events, i, noted)
        }),
    decreases events.len(),
{
    if events.len() > 0 {
        let before = events.drop_last();
        let n = events.len() - 1;
        law_progress_after_success(start, progress, before);
        let (was, had) = noted_run((start, progress), before);
        let (p, noted) = noted_run((start, progress), events);
        let (cancel, event) = events.last();
        assert(events[n] == events.last());
        lemma_first_scannable(was.ranges@, was.range + 1);
        if let PassEvent::Ranges(ranges) = event {
            lemma_first_scannable(ranges@, 0);
        }
        if was.stage == PassStage::Done(Ok(())) {
            let i = choose|i: int| is_last_word((start, progress), before, i, had);
            assert(events.take(i) =~= before.take(i));
            assert(is_last_word((start, progress), events, i, noted));
        } else if p.stage == PassStage::Done(Ok(())) {
            assert(events.take(n) =~= before);
            assert(is_last_word((start, progress), events, n, noted));
        }
    }
}

/// The place of a priority in the order from the lowest to the highest.
pub open spec fn rank(priority: ScanPriority) -> int {
    match priority {
        ScanPriority::Ignored => 0,
        ScanPriority::Scanned => 1,
        ScanPriority::Historic => 2,
        ScanPriority::OpenAdjacent => 3,
        ScanPriority::FoundNote => 4,
        ScanPriority::ChainTip => 5,
        ScanPriority::Verify => 6,
    }
}

/// The range ranks above one that was scanned, and there are blocks in it.
pub open spec fn has_work(range: ScanRange) -> bool {
    rank(range.priority) > 1 && range.start < range.end
}

/// The first range at or behind `from` that has work is at `i`.
pub open spec fn is_first_work(ranges: Seq<ScanRange>, from: int, i: int) -> bool {
    &&& from <= i < ranges.len()
    &&& has_work(ranges[i])
    &&& forall|j: int| from <= j < i ==> !has_work(#[trigger] ranges[j])
}

/// The pass `q` went on to the ranges at or behind `from`. Without a request to
/// stop, it is at the first hundred blocks of the first range that has work.
/// Where none has, the round is over: one that changed something is followed by
/// another, and one that did not by the question how far the wallet is. A request
/// to stop ends it before the first range that ranks above a scanned one, and
/// before another round.
pub open spec fn went_on(q: SyncPass, from: int, cancel: bool, changed: bool) -> bool {
    let ranges = q.ranges@;
    &&& !cancel ==> forall|i: int| #[trigger]
        is_first_work(ranges, from, i) ==> {
            &&& q.stage == PassStage::FetchChainState
            &&& q.range == i
            &&& q.current == ranges[i].start
            &&& q.batch_end == if ranges[i].end - ranges[i].start > 100 {
                ranges[i].start + 100
            } else {
                ranges[i].end as int
            }
        }
    &&& !cancel && (forall|j: int| from <= j < ranges.len() ==> !has_work(#[trigger] ranges[j]))
        ==> q.stage == if changed {
        PassStage::FetchTip
    } else {
        PassStage::FullyScanned
    }
    &&& cancel && (exists|j: int| from <= j < ranges.len() && rank((#[trigger] ranges[j]).priority) > 1)
        ==> q.stage == PassStage::Done(Err(SyncError::Cancelled))
    &&& cancel && (forall|j: int|
        from <= j < ranges.len() ==> rank((#[trigger] ranges[j]).priority) <= 1) ==> q.stage
        == if changed {
        PassStage::Done(Err(SyncError::Cancelled))
    } else {
        PassStage::FullyScanned
    }
}

/// A range is to be scanned exactly where it ranks above one that was scanned:
/// what is ignored and what was scanned is left alone, and nothing else is.
pub proof fn law_rank_decides_what_is_scanned(range: ScanRange)
    ensures
        is_wanted(range) <==> rank(range.priority) > 1,
        range.priority != ScanPriority::Ignored && range.priority != ScanPriority::Scanned <==> rank(
            range.priority,
        ) > 1,
{
}

proof fn lemma_went_on(p: SyncPass, from: int, cancel: bool)
    requires
        0 <= from,
    ensures
        went_on(at_range(p, cancel, from), from, cancel, p.any_scanned),
        at_range(p, cancel, from).ranges == p.ranges,
        at_range(p, cancel, from).tip == p.tip,
        at_range(p, cancel, from).update_roots == p.update_roots,
        at_range(p, cancel, from).any_scanned == p.any_scanned,
{
    let ranges = p.ranges@;
    assert(p.ranges.len() == ranges.len());
    lemma_first_scannable(ranges, from);
    assert forall|k: int| from <= k < ranges.len() implies is_scannable(#[trigger] ranges[k])
        == has_work(ranges[k]) by {
        law_rank_decides_what_is_scanned(ranges[k]);
    }
    if exists|j: int| from <= j < ranges.len() && rank((#[trigger] ranges[j]).priority) > 1 {
        let j = choose|j: int|
            from <= j < ranges.len() && rank((#[trigger] ranges[j]).priority) > 1;
        assert(is_wanted(ranges[j]));
    }
    if any_wanted(ranges, from) {
        let j = choose|j: int| from <= j < ranges.len() && is_wanted(#[trigger] ranges[j]);
        assert(rank(ranges[j].priority) > 1);
    }
    if cancel && (forall|j: int|
        from <= j < ranges.len() ==> rank((#[trigger] ranges[j]).priority) <= 1) {
        assert(first_scannable(ranges, from) is None) by {
            if let Some(i) = first_scannable(ranges, from) {
                assert(has_work(ranges[i]));
            }
        }
    }
    let q = at_range(p, cancel, from);
    if !cancel {
        assert forall|i: int| #[trigger] is_first_work(ranges, from, i) implies first_scannable(
            ranges,
            from,
        ) == Some(i) by {
            assert(is_scannable(ranges[i]));
            let found = first_scannable(ranges, from);
            assert(found is Some);
            if found->0 < i {
                assert(has_work(ranges[found->0]));
            } else if i < found->0 {
                assert(!is_scannable(ranges[i]));
            }
        }
        if forall|j: int| from <= j < ranges.len() ==> !has_work(#[trigger] ranges[j]) {
            if let Some(i) = first_scannable(ranges, from) {
                assert(has_work(ranges[i]));
            }
        }
    }
}

/// What the wallet suggests is scanned: the first suggested range that ranks
/// above a scanned one and has blocks in it is begun at its start, whatever its
/// priority. Where there is no such range, the round is over.
pub proof fn law_suggested_ranges_are_scanned(p: SyncPass, cancel: bool, suggested: Vec<ScanRange>)
    requires
        p.stage is SuggestRanges,
    ensures
        ({
            let q = pass_next(p, cancel, PassEvent::Ranges(suggested));
            &&& suggested@.len() == 0 ==> q.stage == PassStage::FullyScanned
            &&& suggested@.len() > 0 ==> {
                &&& q.ranges == suggested
                &&& !q.any_scanned
                &&& went_on(q, 0, cancel, false)
            }
            &&& q.update_roots == p.update_roots
            &&& q.tip == p.tip
        }),
{
    if suggested@.len() > 0 {
        lemma_went_on(SyncPass { ranges: suggested, any_scanned: false, ..p }, 0, cancel);
    }
}

/// A single range of any priority above a scanned one is begun at its first
/// block; one that ranks no higher leaves nothing to do.
pub proof fn law_every_urgency_is_served(p: SyncPass, suggested: Vec<ScanRange>)
    requires
        p.stage is SuggestRanges,
        suggested@.len() == 1,
        suggested@[0].start < suggested@[0].end,
    ensures
        ({
            let q = pass_next(p, false, PassEvent::Ranges(suggested));
            let urgency = suggested@[0].priority;
            &&& urgency == ScanPriority::Historic || urgency == ScanPriority::OpenAdjacent
                || urgency == ScanPriority::FoundNote || urgency == ScanPriority::ChainTip
                || urgency == ScanPriority::Verify ==> {
                &&& q.stage == PassStage::FetchChainState
                &&& q.current == suggested@[0].start
                &&& q.current < q.batch_end <= suggested@[0].end
            }
            &&& urgency == ScanPriority::Ignored || urgency == ScanPriority::Scanned ==> q.stage
                == PassStage::FullyScanned
        }),
{
    law_suggested_ranges_are_scanned(p, false, suggested);
    let q = pass_next(p, false, PassEvent::Ranges(suggested));
    if has_work(suggested@[0]) {
        assert(is_first_work(q.ranges@, 0, 0));
    }
}

/// Blocks that came, one or many, are stored; where none came, the rest of the
/// range is given up and the round goes on behind it, no more changed than
/// before.
pub proof fn law_blocks_that_came_are_stored(p: SyncPass, cancel: bool, count: usize)
    requires
        p.stage is FetchBlocks,
    ensures
        ({
            let q = pass_next(p, cancel, PassEvent::Blocks(count));
            &&& count >= 1 ==> q == (SyncPass { stage: PassStage::InsertBlocks, ..p })
            &&& count == 0 ==> {
                &&& went_on(q, p.range + 1, cancel, p.any_scanned)
                &&& q.ranges == p.ranges
                &&& q.any_scanned == p.any_scanned
                &&& q.update_roots == p.update_roots
                &&& q.tip == p.tip
            }
        }),
{
    lemma_went_on(p, p.range + 1, cancel);
}

/// Behind a batch that was scanned comes the next of its range, from where it
/// ended and at most a hundred blocks long, and behind the last of them the next
/// range. The round has then changed something.
pub proof fn law_a_scanned_batch_is_followed(p: SyncPass, cancel: bool)
    requires
        p.stage is ClearScanned,
        p.range < p.ranges@.len(),
    ensures
        ({
            let q = pass_next(p, cancel, PassEvent::Finished);
            let end = p.ranges@[p.range as int].end;
            &&& q.any_scanned
            &&& q.ranges == p.ranges
            &&& q.update_roots == p.update_roots
            &&& q.tip == p.tip
            &&& p.batch_end < end && !cancel ==> {
                &&& q.stage == PassStage::FetchChainState
                &&& q.range == p.range
                &&& q.current == p.batch_end
                &&& q.batch_end == if end - p.batch_end > 100 {
                    p.batch_end + 100
                } else {
                    end as int
                }
            }
            &&& p.batch_end < end && cancel ==> q.stage == PassStage::Done(
                Err(SyncError::Cancelled),
            )
            &&& p.batch_end >= end ==> went_on(q, p.range + 1, cancel, true)
        }),
{
    lemma_went_on(
        SyncPass { current: p.batch_end, any_scanned: true, ..p },
        p.range + 1,
        cancel,
    );
}

/// The words of a scan error name a reorganisation.
pub open spec fn names_reorganisation(text: Seq<char>) -> bool {
    exists|head: Seq<char>, word: Seq<char>, tail: Seq<char>|
        {
            &&& text == #[trigger] (head + word + tail)
            &&& word == "PrevHash"@ || word == "Continuity"@ || word == "ChainInvalid"@ || word
                == "BlockConflict"@
        }
}

proof fn lemma_names_reorganisation(text: Seq<char>, word: Seq<char>)
    requires
        crate::text::occurs(text, word),
        word == "PrevHash"@ || word == "Continuity"@ || word == "ChainInvalid"@ || word
            == "BlockConflict"@,
    ensures
        names_reorganisation(text),
{
    crate::text::law_what_occurs_can_be_cut_out(text, word);
    let (head, tail) = choose|head: Seq<char>, tail: Seq<char>|
        #[trigger] (head + word + tail) == text;
    assert(text == head + word + tail);
}

/// A scan error tells of a reorganisation exactly where it holds one of the four
/// words, wherever they stand in it. The wallet is then taken back, and the round
/// goes on behind the range as one that changed something. After any other error
/// it goes on behind the range as it is.
pub proof fn law_a_failed_scan_gives_the_range_up(
    p: SyncPass,
    text: String,
    c1: bool,
    c2: bool,
    c3: bool,
)
    requires
        p.stage is ScanBlocks,
    ensures
        ({
            let failed = pass_next(p, c1, PassEvent::ScanFailed(text));
            let cleared = pass_next(failed, c2, PassEvent::Finished);
            let back = pass_next(cleared, c3, PassEvent::Finished);
            &&& failed == (SyncPass {
                stage: PassStage::ClearFailed(names_reorganisation(text@)),
                ..p
            })
            &&& names_reorganisation(text@) ==> {
                &&& cleared == (SyncPass { stage: PassStage::Truncate, ..p })
                &&& went_on(back, p.range + 1, c3, true)
                &&& back.any_scanned
                &&& back.ranges == p.ranges
                &&& back.tip == p.tip
                &&& back.update_roots == p.update_roots
            }
            &&& !names_reorganisation(text@) ==> {
                &&& went_on(cleared, p.range + 1, c2, p.any_scanned)
                &&& cleared.any_scanned == p.any_scanned
                &&& cleared.ranges == p.ranges
                &&& cleared.tip == p.tip
                &&& cleared.update_roots == p.update_roots
            }
        }),
{
    if names_reorganisation(text@) {
        let (head, word, tail) = choose|head: Seq<char>, word: Seq<char>, tail: Seq<char>|
            {
                &&& text@ == #[trigger] (head + word + tail)
                &&& word == "PrevHash"@ || word == "Continuity"@ || word == "ChainInvalid"@ || word
                    == "BlockConflict"@
            };
        crate::text::law_a_text_occurs_where_it_stands(head, word, tail);
    }
    if is_reorg_text(text@) {
        if crate::text::occurs(text@, "PrevHash"@) {
            lemma_names_reorganisation(text@, "PrevHash"@);
        } else if crate::text::occurs(text@, "Continuity"@) {
            lemma_names_reorganisation(text@, "Continuity"@);
        } else if crate::text::occurs(text@, "ChainInvalid"@) {
            lemma_names_reorganisation(text@, "ChainInvalid"@);
        } else {
            lemma_names_reorganisation(text@, "BlockConflict"@);
        }
    }
    let failed = pass_next(p, c1, PassEvent::ScanFailed(text));
    let cleared = pass_next(failed, c2, PassEvent::Finished);
    lemma_went_on(failed, p.range + 1, c2);
    lemma_went_on(SyncPass { any_scanned: true, ..cleared }, p.range + 1, c3);
}

/// A pass opens the wallet and the cache and connects, in this order. Without
/// roots to bring up to date its first round follows, and with them the roots of
/// the Sapling pool.
pub proof fn law_a_pass_opens_and_connects(p: SyncPass, c1: bool, c2: bool, cancel: bool)
    requires
        p.stage == PassStage::OpenWallet,
    ensures
        ({
            let opened = pass_next(p, c1, PassEvent::Finished);
            let cached = pass_next(opened, c2, PassEvent::Finished);
            let connected = pass_next(cached, cancel, PassEvent::Finished);
            &&& opened == (SyncPass { stage: PassStage::OpenCache, ..p })
            &&& cached == (SyncPass { stage: PassStage::Connect, ..p })
            &&& p.update_roots ==> connected == (SyncPass {
                stage: PassStage::ShardIndex(Pool::Sapling),
                ..p
            })
            &&& !p.update_roots && !cancel ==> connected == (SyncPass {
                stage: PassStage::FetchTip,
                ..p
            })
            &&& !p.update_roots && cancel ==> connected == (SyncPass {
                stage: PassStage::Done(Err(SyncError::Cancelled)),
                ..p
            })
        }),
{
}

/// The roots of a pool are asked for from the first shard that is lacking, and
/// those that come are stored from there. Those of the Orchard pool follow those
/// of the Sapling pool, and the first round follows them; where none come there is
/// nothing to store.
pub proof fn law_roots_are_stored_where_they_belong(
    p: SyncPass,
    pool: Pool,
    start: u64,
    roots: Vec<SubtreeRoot>,
    c1: bool,
    c2: bool,
    c3: bool,
)
    requires
        p.stage == PassStage::ShardIndex(pool),
    ensures
        ({
            let asked = pass_next(p, c1, PassEvent::ShardIndex(start));
            let came = pass_next(asked, c2, PassEvent::Roots(roots));
            let last = if roots@.len() == 0 {
                came
            } else {
                pass_next(came, c3, PassEvent::Finished)
            };
            let cancel = if roots@.len() == 0 {
                c2
            } else {
                c3
            };
            &&& asked == (SyncPass { stage: PassStage::FetchRoots(pool, start), ..p })
            &&& roots@.len() > 0 ==> came == (SyncPass {
                stage: PassStage::PutRoots(pool, start, roots),
                ..p
            })
            &&& last == (SyncPass {
                stage: if pool == Pool::Sapling {
                    PassStage::ShardIndex(Pool::Orchard)
                } else if cancel {
                    PassStage::Done(Err(SyncError::Cancelled))
                } else {
                    PassStage::FetchTip
                },
                ..p
            })
        }),
{
}

/// A round starts with the height of the chain: the wallet is told what the
/// server said, then the transparent outputs are refreshed, and then the wallet
/// is asked what to scan. A height that fits is kept as it is.
pub proof fn law_a_round_starts_at_the_tip(
    p: SyncPass,
    sent: u64,
    c1: bool,
    c2: bool,
    c3: bool,
)
    requires
        p.stage == PassStage::FetchTip,
    ensures
        ({
            let told = pass_next(p, c1, PassEvent::Tip(sent));
            let updated = pass_next(told, c2, PassEvent::Finished);
            let refreshed = pass_next(updated, c3, PassEvent::Finished);
            &&& told.stage == PassStage::UpdateTip
            &&& sent < 0x1_0000_0000 ==> told.tip == sent
            &&& (sent - told.tip) % 0x1_0000_0000 == 0
            &&& told == (SyncPass { tip: told.tip, stage: PassStage::UpdateTip, ..p })
            &&& updated == (SyncPass { stage: PassStage::RefreshUtxos, ..told })
            &&& refreshed == (SyncPass { stage: PassStage::SuggestRanges, ..told })
        }),
{
}

/// A step that fails ends the pass with its error. Where the index of a shard is
/// looked up, the transparent outputs are refreshed, the wallet is asked how far it
/// is, or a batch is scanned or removed, a failure is of no matter or comes in
/// another form.
pub proof fn law_a_failed_step_ends_the_pass(p: SyncPass, cancel: bool, e: SyncError)
    ensures
        p.stage is OpenWallet || p.stage is OpenCache || p.stage is Connect || p.stage is FetchRoots
            || p.stage is PutRoots || p.stage is FetchTip || p.stage is UpdateTip
            || p.stage is SuggestRanges || p.stage is FetchChainState || p.stage is FetchBlocks
            || p.stage is InsertBlocks || p.stage is Truncate ==> pass_next(
            p,
            cancel,
            PassEvent::Failed(e),
        ) == (SyncPass { stage: PassStage::Done(Err(e)), ..p }),
        p.stage is ShardIndex || p.stage is RefreshUtxos || p.stage is FullyScanned
            || p.stage is ScanBlocks || p.stage is ClearScanned || p.stage is ClearFailed
            || p.stage is Done ==> pass_next(p, cancel, PassEvent::Failed(e)) == p,
{
}

/// An answer counts only where its question was asked: any other leaves the pass
/// and its progress as they are.
pub proof fn law_a_pass_hears_only_what_it_asked(
    p: SyncPass,
    cancel: bool,
    progress: SyncProgressInfo,
    event: PassEvent,
)
    requires
        !(event is Failed),
        event is Finished ==> p.stage is ShardIndex || p.stage is FetchRoots || p.stage is FetchTip
            || p.stage is SuggestRanges || p.stage is FullyScanned || p.stage is FetchBlocks
            || p.stage is ScanBlocks || p.stage is Done,
        event is ShardIndex ==> !(p.stage is ShardIndex),
        event is Roots ==> !(p.stage is FetchRoots),
        event is Tip ==> !(p.stage is FetchTip),
        event is Ranges ==> !(p.stage is SuggestRanges),
        event is FullyScanned ==> !(p.stage is FullyScanned),
        event is Blocks ==> !(p.stage is FetchBlocks),
        event is Scanned || event is ScanFailed ==> !(p.stage is ScanBlocks),
    ensures
        pass_next(p, cancel, event) == p,
        progress_next(p, progress, event) == progress,
{
}

/// The steps of a batch follow each other at the same blocks, and a pass that was
/// told how far the wallet is has succeeded.
pub proof fn law_a_batch_keeps_its_blocks(p: SyncPass, cancel: bool, height: u32)
    ensures
        p.stage is FetchChainState ==> pass_next(p, cancel, PassEvent::Finished) == (SyncPass {
            stage: PassStage::FetchBlocks,
            ..p
        }),
        p.stage is InsertBlocks ==> pass_next(p, cancel, PassEvent::Finished) == (SyncPass {
            stage: PassStage::ScanBlocks,
            ..p
        }),
        p.stage is ScanBlocks ==> pass_next(p, cancel, PassEvent::Scanned(height)) == (SyncPass {
            stage: PassStage::ClearScanned,
            ..p
        }),
        p.stage is FullyScanned ==> pass_next(p, cancel, PassEvent::FullyScanned(height)) == (
        SyncPass { stage: PassStage::Done(Ok(())), ..p }),
{
}

/// What is noted of the progress: the height of the chain once the wallet knows
/// it, and that the connection works; the end of a batch once it is stored; the
/// height that was reached once it is scanned and once it is removed; and at the
/// end how far the wallet is, where it says so. Nothing else is noted, and each
/// time the rest stays.
pub proof fn law_what_is_noted_of_the_progress(
    p: SyncPass,
    progress: SyncProgressInfo,
    event: PassEvent,
)
    ensures
        ({
            let noted = progress_next(p, progress, event);
            &&& p.stage is UpdateTip && event is Finished ==> {
                &&& noted.latest_height == p.tip
                &&& noted.connection_error is None
                &&& noted.synced_height == progress.synced_height
                &&& noted.is_syncing == progress.is_syncing
                &&& noted.scanning_up_to == progress.scanning_up_to
            }
            &&& p.stage is InsertBlocks && event is Finished ==> noted == (SyncProgressInfo {
                scanning_up_to: p.batch_end,
                ..progress
            })
            &&& p.stage is ScanBlocks && event is Scanned ==> noted == (SyncProgressInfo {
                synced_height: event->Scanned_0,
                ..progress
            })
            &&& p.stage is ClearScanned && event is Finished ==> {
                &&& noted.synced_height == p.batch_end
                &&& noted.latest_height == p.tip
                &&& noted.is_syncing
                &&& noted.connection_error == progress.connection_error
                &&& noted.scanning_up_to == progress.scanning_up_to
            }
            &&& p.stage is FullyScanned && event is FullyScanned ==> noted == (SyncProgressInfo {
                synced_height: if event->FullyScanned_0 >= 1 {
                    event->FullyScanned_0
                } else {
                    progress.synced_height
                },
                ..progress
            })
            &&& !(event is Finished || event is Scanned || event is FullyScanned) ==> noted
                == progress
            &&& event is Finished && !(p.stage is UpdateTip || p.stage is InsertBlocks
                || p.stage is ClearScanned) ==> noted == progress
        }),
{
}

/// A batch is as long as it may be: it ends with its range, or it has its full
/// size.
pub proof fn law_a_batch_is_as_long_as_it_may_be(from: u32, end: u32, size: u32)
    ensures
        ({
            let limit = batch_limit(from, end, size);
            &&& limit <= end
            &&& from <= end ==> from <= limit <= from + size
            &&& limit == end || limit == from + size
            &&& from < end && size > 0 ==> from < limit
        }),
{
}

/// The block before a block is the one whose height is less by one; only the
/// first block has none, and stands for it itself. A height of at most 32 bits is
/// the one that was sent.
pub proof fn law_heights(height: u32, sent: u64)
    ensures
        height > 0 ==> height_before(height) + 1 == height,
        height == 0 ==> height_before(height) == 0,
        sent <= u32::MAX ==> height_of(sent) == sent,
        (sent - height_of(sent)) % 0x1_0000_0000 == 0,
{
}

/// A failure that is reported in its own words has no others; one of a call
/// has the words that name the call before them.
pub proof fn law_a_failed_call_is_named(text: String)
    ensures
        sync_error_text(SyncError::Plain(text)) == text@,
        sync_error_text(SyncError::Cancelled) == "Sync cancelled"@,
        sync_error_text(SyncError::Call(Call::SubtreeRoots(Pool::Sapling), text))
            == "get_subtree_roots(sapling): "@ + text@,
        sync_error_text(SyncError::Call(Call::SubtreeRoots(Pool::Orchard), text))
            == "get_subtree_roots(orchard): "@ + text@,
        sync_error_text(SyncError::Call(Call::SubtreeRootStream(Pool::Sapling), text))
            == "sapling subtree roots: "@ + text@,
        sync_error_text(SyncError::Call(Call::SubtreeRootStream(Pool::Orchard), text))
            == "orchard subtree roots: "@ + text@,
        sync_error_text(SyncError::Call(Call::PutSubtreeRoots(Pool::Sapling), text))
            == "put_sapling_subtree_roots: "@ + text@,
        sync_error_text(SyncError::Call(Call::PutSubtreeRoots(Pool::Orchard), text))
            == "put_orchard_subtree_roots: "@ + text@,
        sync_error_text(SyncError::Call(Call::LatestBlock, text)) == "get_latest_block: "@ + text@,
        sync_error_text(SyncError::Call(Call::UpdateChainTip, text)) == "update_chain_tip: "@
            + text@,
        sync_error_text(SyncError::Call(Call::SuggestScanRanges, text)) == "suggest_scan_ranges: "@
            + text@,
        sync_error_text(SyncError::Call(Call::TreeState, text)) == "get_tree_state: "@ + text@,
        sync_error_text(SyncError::Call(Call::ChainState, text)) == "to_chain_state: "@ + text@,
        sync_error_text(SyncError::Call(Call::BlockRange, text)) == "get_block_range: "@ + text@,
        sync_error_text(SyncError::Call(Call::BlockStream, text)) == "stream block: "@ + text@,
        sync_error_text(SyncError::Call(Call::InsertBlocks, text)) == "insert_blocks: "@ + text@,
        sync_error_text(SyncError::Call(Call::TruncateToHeight, text)) == "truncate_to_height: "@
            + text@,
{
}

/// A request names each block from the one bound up to the other, which it does
/// not name itself, and no other block.
pub proof fn law_a_request_names_its_blocks(r: BlockRequest, from: u32, to: u32, height: u64)
    requires
        to > 0,
        is_request_for(r, from, to),
    ensures
        r.start <= height <= r.end <==> from <= height < to,
        from < to ==> r.end - r.start + 1 == to - from,
{
}

} // verus!
