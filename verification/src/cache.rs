//! The cache of downloaded blocks: what is asked of it and what its rows hold.
use vstd::prelude::*;

use crate::external::{decode_compact_block, decoded_block, encode_compact_block};
use crate::pass::{block_height, height_of};
use crate::text::joined;

verus! {

/// Why the block cache could not serve.
#[derive(Debug)]
pub struct BlockCacheError(pub String);

impl BlockCacheError {
    /// The reason in words.
    pub fn message(&self) -> (r: String)
        ensures
            r@ == "BlockCacheError: "@ + self.0@,
    {
        joined("BlockCacheError: ", self.0.as_str())
    }
}

/// The blocks from height `from` on, in order of height, at most `limit`.
#[derive(Clone, Copy, Debug, PartialEq, Eq, Structural)]
pub struct BlockQuery {
    pub from: u32,
    pub limit: u32,
}

/// The query for the blocks from a height on, up to a limit.
pub open spec fn query_of(from_height: Option<u32>, limit: Option<usize>) -> BlockQuery {
    BlockQuery {
        from: match from_height {
            Some(height) => height,
            None => 0,
        },
        limit: match limit {
            Some(n) => (n as int % 0x1_0000_0000) as u32,
            None => u32::MAX,
        },
    }
}

/// What is asked of the cache: from the lowest height on where no height is
/// given, and as many blocks as can be where no limit is given. Of a limit the
/// low 32 bits count.
pub fn with_blocks(from_height: Option<u32>, limit: Option<usize>) -> (r: BlockQuery)
    ensures
        r == query_of(from_height, limit),
{
    let from: u32 = match from_height {
        Some(height) => height,
        None => 0,
    };
    let limit: u32 = match limit {
        Some(n) => (n as u64 % 0x1_0000_0000) as u32,
        None => u32::MAX,
    };
    BlockQuery { from, limit }
}

/// The height under which a block is kept.
pub fn row_height(height: u64) -> (r: u32)
    ensures
        r == height_of(height),
{
    block_height(height)
}

/// The bytes are a row of the block.
pub open spec fn is_row_of(
    data: Seq<u8>,
    block: zcash_client_backend::proto::compact_formats::CompactBlock,
) -> bool {
    decoded_block(data) == Ok::<
        zcash_client_backend::proto::compact_formats::CompactBlock,
        Seq<char>,
    >(block)
}

/// What comes of reading a row: its block, or why it has none.
pub open spec fn row_reads_as(
    r: Result<zcash_client_backend::proto::compact_formats::CompactBlock, BlockCacheError>,
    data: Seq<u8>,
) -> bool {
    match r {
        Ok(block) => is_row_of(data, block),
        Err(e) => decoded_block(data) == Err::<
            zcash_client_backend::proto::compact_formats::CompactBlock,
            Seq<char>,
        >(e.0@),
    }
}

/// The row of a block.
pub fn write_block(
    block: &zcash_client_backend::proto::compact_formats::CompactBlock,
) -> (r: Vec<u8>)
    ensures
        is_row_of(r@, *block),
{
    encode_compact_block(block)
}

/// The block of a row.
pub fn read_block(data: &Vec<u8>) -> (r: Result<
    zcash_client_backend::proto::compact_formats::CompactBlock,
    BlockCacheError,
>)
    ensures
        row_reads_as(r, data@),
{
    match decode_compact_block(data.as_slice()) {
        Ok(block) => Ok(block),
        Err(text) => Err(BlockCacheError(text)),
    }
}

/// The cache gives back the block that was stored: to read the row of a block
/// never fails, and gives that block.
pub proof fn law_a_stored_block_reads_back(
    r: Result<zcash_client_backend::proto::compact_formats::CompactBlock, BlockCacheError>,
    data: Seq<u8>,
    block: zcash_client_backend::proto::compact_formats::CompactBlock,
)
    requires
        is_row_of(data, block),
        row_reads_as(r, data),
    ensures
        r == Ok::<
            zcash_client_backend::proto::compact_formats::CompactBlock,
            BlockCacheError,
        >(block),
{
}

/// A row reads exactly where its bytes are a block, and otherwise says why they
/// are none.
pub proof fn law_an_unreadable_row_says_why(
    r: Result<zcash_client_backend::proto::compact_formats::CompactBlock, BlockCacheError>,
    data: Seq<u8>,
)
    requires
        row_reads_as(r, data),
    ensures
        r is Ok <==> decoded_block(data) is Ok,
        r is Ok ==> r->Ok_0 == decoded_block(data)->Ok_0,
        r is Err ==> r->Err_0.0@ == decoded_block(data)->Err_0,
{
}

/// The cache is asked for what was wanted: from the given height on, and for as
/// many blocks as the limit says where that fits. Without a height it is asked
/// from the first block on, and without a limit for as many as there can be.
pub proof fn law_the_cache_is_asked_for_what_is_wanted(height: u32, n: usize, limit: Option<usize>)
    ensures
        query_of(Some(height), limit).from == height,
        query_of(None, limit).from == 0,
        n <= u32::MAX ==> query_of(Some(height), Some(n)).limit == n,
        (n - query_of(Some(height), Some(n)).limit) % 0x1_0000_0000 == 0,
        query_of(Some(height), None).limit == 0xffff_ffff,
        query_of(None, limit).limit == query_of(Some(height), limit).limit,
{
}

} // verus!
