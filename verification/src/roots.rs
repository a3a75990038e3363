//! What the server says of the note commitment trees: the roots of finished
//! subtrees, and the state of the chain before a block.
use vstd::prelude::*;

use crate::external::{
    chain_state_of, has_frontier, internal_status, internal_status_text, is_sound,
    orchard_root_fault, orchard_shape, parse_tree_state, read_orchard_root, read_orchard_tree,
    read_sapling_root, read_sapling_tree, sapling_root_fault, sapling_shape, TreeShape,
};
use crate::pass::{
    block_height, height_of, sync_error_text, Call, Pool, SubtreeRoot, SyncError,
};

verus! {

/// The index behind the highest one, if any.
pub open spec fn shard_behind(max: Option<u64>) -> int {
    match max {
        Some(m) => m + 1,
        None => 0,
    }
}

/// The index of the first shard that the wallet lacks, where `max` is the
/// highest index that it has.
pub fn next_shard_index(max: Option<u64>) -> (r: u64)
    requires
        max matches Some(m) ==> m < u64::MAX,
    ensures
        r == shard_behind(max),
{
    match max {
        Some(m) => m + 1,
        None => 0,
    }
}

/// The query for the highest shard index of a pool.
pub open spec fn shard_sql(pool: Pool) -> Seq<char> {
    match pool {
        Pool::Sapling => "SELECT MAX(shard_index) FROM sapling_tree_shards"@,
        Pool::Orchard => "SELECT MAX(shard_index) FROM orchard_tree_shards"@,
    }
}

/// The query for the highest shard index of a pool.
pub fn shard_query(pool: Pool) -> (r: &'static str)
    ensures
        r@ == shard_sql(pool),
{
    match pool {
        Pool::Sapling => "SELECT MAX(shard_index) FROM sapling_tree_shards",
        Pool::Orchard => "SELECT MAX(shard_index) FROM orchard_tree_shards",
    }
}

/// The low 32 bits of the index of a shard.
pub open spec fn asked_from(start: u64) -> u32 {
    (start % 0x1_0000_0000) as u32
}

/// The index from which the server is asked for subtree roots: the low 32 bits
/// of the index of the shard.
pub fn request_start(start: u64) -> (r: u32)
    ensures
        r == asked_from(start),
{
    (start % 0x1_0000_0000) as u32
}

/// A subtree root as the server sends it.
#[derive(Debug)]
pub struct RootReply {
    pub hash: Vec<u8>,
    pub height: u64,
}

/// What is wrong with bytes as a subtree root of a pool, if anything.
pub open spec fn root_fault(pool: Pool, bytes: Seq<u8>) -> Option<Seq<char>> {
    match pool {
        Pool::Sapling => sapling_root_fault(bytes),
        Pool::Orchard => orchard_root_fault(bytes),
    }
}

/// The root is the one that the reply holds: the first 32 of its bytes, and the
/// low half of its height.
pub open spec fn is_root_of(root: SubtreeRoot, reply: RootReply) -> bool {
    &&& reply.hash@.len() >= 32
    &&& root.hash@ == reply.hash@.take(32)
    &&& root.height == height_of(reply.height)
}

/// The root of a reply with this height and hash, or the failure to report where
/// it has no hash.
pub open spec fn root_from(pool: Pool, height: u64, read: Result<[u8; 32], String>) -> Result<
    SubtreeRoot,
    SyncError,
> {
    match read {
        Ok(hash) => Ok(SubtreeRoot { height: height_of(height), hash }),
        Err(text) => Err(SyncError::Call(Call::SubtreeRootStream(pool), text)),
    }
}

/// The root that was read of a reply with this height, or the failure to report
/// where none was.
pub fn root_of(pool: Pool, height: u64, read: Result<[u8; 32], String>) -> (r: Result<
    SubtreeRoot,
    SyncError,
>)
    ensures
        r == root_from(pool, height, read),
{
    match read {
        Ok(hash) => Ok(SubtreeRoot { height: block_height(height), hash }),
        Err(text) => Err(SyncError::Call(Call::SubtreeRootStream(pool), text)),
    }
}

fn read_hash(pool: Pool, reply: &RootReply) -> (r: Result<[u8; 32], String>)
    ensures
        match r {
            Ok(hash) => {
                &&& root_fault(pool, reply.hash@) is None
                &&& reply.hash@.len() >= 32
                &&& hash@ == reply.hash@.take(32)
            },
            Err(text) => {
                &&& root_fault(pool, reply.hash@) is Some
                &&& text@ == internal_status(root_fault(pool, reply.hash@)->0)
            },
        },
{
    let read = match pool {
        Pool::Sapling => read_sapling_root(reply.hash.as_slice()),
        Pool::Orchard => read_orchard_root(reply.hash.as_slice()),
    };
    match read {
        Ok(hash) => Ok(hash),
        Err(text) => Err(internal_status_text(text.as_str())),
    }
}

/// The first reply with a fault.
pub open spec fn is_first_fault(pool: Pool, replies: Seq<RootReply>, i: int) -> bool {
    &&& 0 <= i < replies.len()
    &&& root_fault(pool, replies[i].hash@) is Some
    &&& forall|j: int| 0 <= j < i ==> root_fault(pool, #[trigger] replies[j].hash@) is None
}

/// What comes of reading the subtree roots that the server sent: a root for each
/// reply, in order, or what is wrong with the first that has none.
pub open spec fn roots_read_as(
    r: Result<Vec<SubtreeRoot>, SyncError>,
    pool: Pool,
    replies: Seq<RootReply>,
) -> bool {
    match r {
        Ok(roots) => {
            &&& roots@.len() == replies.len()
            &&& forall|i: int|
                0 <= i < replies.len() ==> {
                    &&& root_fault(pool, #[trigger] replies[i].hash@) is None
                    &&& is_root_of(roots@[i], replies[i])
                }
        },
        Err(SyncError::Call(call, text)) => {
            &&& call == Call::SubtreeRootStream(pool)
            &&& exists|i: int|
                {
                    &&& #[trigger] is_first_fault(pool, replies, i)
                    &&& text@ == internal_status(root_fault(pool, replies[i].hash@)->0)
                }
        },
        Err(_) => false,
    }
}

/// Reads the subtree roots that the server sent. The first one that is no root
/// of the pool ends the reading.
pub fn read_roots(pool: Pool, replies: &Vec<RootReply>) -> (r: Result<Vec<SubtreeRoot>, SyncError>)
    ensures
        roots_read_as(r, pool, replies@),
{
    let mut roots: Vec<SubtreeRoot> = Vec::new();
    for i in 0..replies.len()
        invariant
            roots@.len() == i,
            forall|j: int|
                0 <= j < i ==> {
                    &&& root_fault(pool, #[trigger] replies@[j].hash@) is None
                    &&& is_root_of(roots@[j], replies@[j])
                },
    {
        let read = read_hash(pool, &replies[i]);
        if read.is_err() {
            assert(is_first_fault(pool, replies@, i as int));
        }
        match root_of(pool, replies[i].height, read) {
            Ok(root) => {
                roots.push(root);
            },
            Err(e) => {
                return Err(e);
            },
        }
    }
    Ok(roots)
}

/// The state of the note commitment trees behind a block, as the server sends
/// it.
#[derive(Debug)]
pub struct TreeStateReply {
    pub height: u64,
    pub hash: String,
    pub sapling_tree: String,
    pub orchard_tree: String,
}

/// Whether a tree of this shape has a frontier.
pub fn shows_frontier(shape: &TreeShape) -> (r: bool)
    ensures
        r == has_frontier(shape.left, shape.right, shape.parents@),
{
    if shape.left {
        return true;
    }
    if shape.right {
        return false;
    }
    for i in 0..shape.parents.len()
        invariant
            !shape.left,
            forall|j: int| 0 <= j < i ==> !#[trigger] shape.parents@[j],
    {
        if shape.parents[i] {
            return false;
        }
    }
    true
}

/// The encoded tree of a pool is empty, cannot be read, or has a frontier.
pub open spec fn tree_is_sound(pool: Pool, tree: Seq<char>) -> bool {
    match pool {
        Pool::Sapling => is_sound(tree, sapling_shape(tree)),
        Pool::Orchard => is_sound(tree, orchard_shape(tree)),
    }
}

/// Whether the encoded tree of a pool is empty, cannot be read, or has a
/// frontier.
pub fn check_tree(pool: Pool, tree: &str) -> (r: bool)
    ensures
        r == tree_is_sound(pool, tree@),
{
    if tree.is_empty() {
        return true;
    }
    let shape = match pool {
        Pool::Sapling => read_sapling_tree(tree),
        Pool::Orchard => read_orchard_tree(tree),
    };
    match shape {
        Some(s) => shows_frontier(&s),
        None => true,
    }
}

/// Both trees of a tree state are sound.
pub open spec fn both_sound(reply: TreeStateReply) -> bool {
    tree_is_sound(Pool::Sapling, reply.sapling_tree@) && tree_is_sound(
        Pool::Orchard,
        reply.orchard_tree@,
    )
}

/// What comes of a tree state up to the first tree that is not sound: from there
/// on the trees are taken as empty.
pub open spec fn reply_state(reply: TreeStateReply) -> Result<
    zcash_client_backend::data_api::chain::ChainState,
    Seq<char>,
> {
    chain_state_of(
        reply.height,
        reply.hash@,
        if tree_is_sound(Pool::Sapling, reply.sapling_tree@) {
            reply.sapling_tree@
        } else {
            Seq::empty()
        },
        if both_sound(reply) {
            reply.orchard_tree@
        } else {
            Seq::empty()
        },
    )
}

/// What comes of reading a tree state: the state of the chain, or what is wrong
/// with it.
pub open spec fn state_reads_as(
    r: Result<zcash_client_backend::data_api::chain::ChainState, SyncError>,
    reply: TreeStateReply,
) -> bool {
    match r {
        Ok(state) => both_sound(reply) && reply_state(reply) == Ok::<
            zcash_client_backend::data_api::chain::ChainState,
            Seq<char>,
        >(state),
        Err(SyncError::Call(call, text)) => {
            &&& call == Call::ChainState
            &&& match reply_state(reply) {
                Err(fault) => text@ == fault,
                Ok(_) => !both_sound(reply) && text@
                    == "Note commitment tree without a left leaf"@,
            }
        },
        Err(_) => false,
    }
}

/// The state of the chain that a tree state stands for. What is wrong is
/// reported in the order in which the parts are read: the hash, the height, the
/// Sapling tree, the Orchard tree. A tree that can be read but has no frontier
/// is wrong, too.
pub fn download_chain_state(reply: &TreeStateReply) -> (r: Result<
    zcash_client_backend::data_api::chain::ChainState,
    SyncError,
>)
    ensures
        state_reads_as(r, *reply),
{
    let sapling_sound = check_tree(Pool::Sapling, reply.sapling_tree.as_str());
    let sound = sapling_sound && check_tree(Pool::Orchard, reply.orchard_tree.as_str());
    let sapling_tree = if sapling_sound {
        reply.sapling_tree.as_str()
    } else {
        ""
    };
    let orchard_tree = if sound {
        reply.orchard_tree.as_str()
    } else {
        ""
    };
    proof {
        reveal_strlit("");
        assert(""@ =~= Seq::<char>::empty());
    }
    match parse_tree_state(reply.height, reply.hash.as_str(), sapling_tree, orchard_tree) {
        Err(text) => Err(SyncError::Call(Call::ChainState, text)),
        Ok(state) => {
            if sound {
                Ok(state)
            } else {
                Err(
                    SyncError::Call(
                        Call::ChainState,
                        "Note commitment tree without a left leaf".to_owned(),
                    ),
                )
            }
        },
    }
}

// ---------------------------------------------------------------------------
// Laws
// ---------------------------------------------------------------------------

/// Bytes are judged as a root of the pool that they came for.
pub proof fn law_each_pool_judges_its_roots(bytes: Seq<u8>)
    ensures
        root_fault(Pool::Sapling, bytes) == sapling_root_fault(bytes),
        root_fault(Pool::Orchard, bytes) == orchard_root_fault(bytes),
{
}

/// The roots that are read are those that came, as many and in the same order:
/// each has the first 32 bytes of its reply, and the height of it where that fits.
pub proof fn law_roots_are_those_that_came(
    r: Result<Vec<SubtreeRoot>, SyncError>,
    pool: Pool,
    replies: Seq<RootReply>,
    i: int,
    k: int,
)
    requires
        roots_read_as(r, pool, replies),
        r is Ok,
        0 <= i < replies.len(),
        0 <= k < 32,
    ensures
        r->Ok_0@.len() == replies.len(),
        r->Ok_0@[i].hash@[k] == replies[i].hash@[k],
        replies[i].height <= u32::MAX ==> r->Ok_0@[i].height == replies[i].height,
        (replies[i].height - r->Ok_0@[i].height) % 0x1_0000_0000 == 0,
        root_fault(pool, replies[i].hash@) is None,
{
    assert(root_fault(pool, replies[i].hash@) is None);
    assert(replies[i].hash@.take(32)[k] == replies[i].hash@[k]);
}

/// Roots are read exactly where nothing is wrong with any of them, and otherwise
/// the first that is wrong is reported, under the name of its pool.
pub proof fn law_the_first_wrong_root_is_reported(
    r: Result<Vec<SubtreeRoot>, SyncError>,
    pool: Pool,
    replies: Seq<RootReply>,
    i: int,
)
    requires
        roots_read_as(r, pool, replies),
    ensures
        (forall|j: int| 0 <= j < replies.len() ==> root_fault(pool, #[trigger] replies[j].hash@) is None)
            <==> r is Ok,
        0 <= i < replies.len() && root_fault(pool, replies[i].hash@) is Some && (forall|j: int|
            0 <= j < i ==> root_fault(pool, #[trigger] replies[j].hash@) is None) ==> {
            &&& r is Err
            &&& sync_error_text(r->Err_0) == (if pool == Pool::Sapling {
                "sapling subtree roots: "@
            } else {
                "orchard subtree roots: "@
            }) + internal_status(root_fault(pool, replies[i].hash@)->0)
        },
{
    if let Err(SyncError::Call(call, text)) = r {
        let first = choose|first: int|
            {
                &&& #[trigger] is_first_fault(pool, replies, first)
                &&& text@ == internal_status(root_fault(pool, replies[first].hash@)->0)
            };
        assert(root_fault(pool, replies[first].hash@) is Some);
        if 0 <= i < replies.len() && root_fault(pool, replies[i].hash@) is Some && (forall|j: int|
            0 <= j < i ==> root_fault(pool, #[trigger] replies[j].hash@) is None) {
            if i < first {
                assert(root_fault(pool, replies[i].hash@) is None);
            } else if first < i {
                assert(root_fault(pool, replies[first].hash@) is None);
            }
        }
    } else if r is Ok {
        if 0 <= i < replies.len() {
            assert(root_fault(pool, replies[i].hash@) is None);
        }
    }
}

/// A tree with a left leaf has a frontier, whatever else it has. Without one it
/// has a frontier only where it has no node at all.
pub proof fn law_a_left_leaf_makes_a_frontier(right: bool, parents: Seq<bool>, i: int)
    ensures
        has_frontier(true, right, parents),
        !has_frontier(false, true, parents),
        0 <= i < parents.len() && parents[i] ==> !has_frontier(false, right, parents),
        (forall|j: int| 0 <= j < parents.len() ==> !#[trigger] parents[j]) ==> has_frontier(
            false,
            false,
            parents,
        ),
{
}

/// The tree of a pool, read as one of that pool, has nodes but no left leaf.
pub open spec fn lacks_left_leaf(pool: Pool, tree: Seq<char>) -> bool {
    match pool {
        Pool::Sapling => tree.len() > 0 && is_headless(sapling_shape(tree)),
        Pool::Orchard => tree.len() > 0 && is_headless(orchard_shape(tree)),
    }
}

/// A tree of this shape has a right leaf or a parent, but no left leaf.
pub open spec fn is_headless(shape: Option<(bool, bool, Seq<bool>)>) -> bool {
    match shape {
        Some((left, right, parents)) => !left && (right || exists|i: int|
            0 <= i < parents.len() && #[trigger] parents[i]),
        None => false,
    }
}

/// A tree state gives the state of the chain that its four parts stand for. A
/// tree that has nodes but no left leaf gives none; what is wrong with a part
/// that is read before it is reported first.
pub proof fn law_a_tree_state_gives_its_chain_state(
    r: Result<zcash_client_backend::data_api::chain::ChainState, SyncError>,
    reply: TreeStateReply,
)
    requires
        state_reads_as(r, reply),
    ensures
        ({
            let bad_sapling = lacks_left_leaf(Pool::Sapling, reply.sapling_tree@);
            let bad_orchard = lacks_left_leaf(Pool::Orchard, reply.orchard_tree@);
            let whole = chain_state_of(
                reply.height,
                reply.hash@,
                reply.sapling_tree@,
                reply.orchard_tree@,
            );
            let part = chain_state_of(
                reply.height,
                reply.hash@,
                if bad_sapling {
                    Seq::empty()
                } else {
                    reply.sapling_tree@
                },
                Seq::empty(),
            );
            &&& !bad_sapling && !bad_orchard && whole is Ok ==> r is Ok && r->Ok_0 == whole->Ok_0
            &&& !bad_sapling && !bad_orchard && whole is Err ==> r is Err && sync_error_text(
                r->Err_0,
            ) == "to_chain_state: "@ + whole->Err_0
            &&& (bad_sapling || bad_orchard) && part is Err ==> r is Err && sync_error_text(
                r->Err_0,
            ) == "to_chain_state: "@ + part->Err_0
            &&& (bad_sapling || bad_orchard) && part is Ok ==> r is Err && sync_error_text(r->Err_0)
                == "to_chain_state: "@ + "Note commitment tree without a left leaf"@
        }),
{
    lemma_headless(reply.sapling_tree@, sapling_shape(reply.sapling_tree@));
    lemma_headless(reply.orchard_tree@, orchard_shape(reply.orchard_tree@));
}

proof fn lemma_headless(tree: Seq<char>, shape: Option<(bool, bool, Seq<bool>)>)
    ensures
        is_sound(tree, shape) == !(tree.len() > 0 && is_headless(shape)),
{
    if let Some((left, right, parents)) = shape {
        if exists|i: int| 0 <= i < parents.len() && #[trigger] parents[i] {
            let i = choose|i: int| 0 <= i < parents.len() && #[trigger] parents[i];
            law_a_left_leaf_makes_a_frontier(right, parents, i);
            assert(left || !has_frontier(left, right, parents));
        } else {
            law_a_left_leaf_makes_a_frontier(right, parents, 0);
            assert(has_frontier(left, right, parents) == (left || !right));
        }
    }
}

/// The first shard that the wallet lacks is right behind the highest that it has;
/// where it has none, it is the first of all.
pub proof fn law_the_next_shard_is_lacking(max: u64, index: int)
    ensures
        index <= max <==> index < shard_behind(Some(max)),
        shard_behind(None) == 0,
{
}

/// The server is asked for roots from the first shard that is lacking on, where
/// its index fits in 32 bits.
pub proof fn law_roots_are_asked_for_from_the_next_shard(start: u64)
    ensures
        start <= u32::MAX ==> asked_from(start) == start,
        (start - asked_from(start)) % 0x1_0000_0000 == 0,
{
}

/// A root keeps the hash that was read and the height that was sent, where that
/// fits; what kept it from being read is told under the name of the pool.
pub proof fn law_a_root_keeps_its_hash(pool: Pool, height: u64, hash: [u8; 32], text: String)
    ensures
        ({
            let root = root_from(pool, height, Ok(hash));
            &&& root is Ok
            &&& root->Ok_0.hash == hash
            &&& height <= u32::MAX ==> root->Ok_0.height == height
            &&& (height - root->Ok_0.height) % 0x1_0000_0000 == 0
        }),
        ({
            let root = root_from(pool, height, Err(text));
            &&& root is Err
            &&& sync_error_text(root->Err_0) == (if pool == Pool::Sapling {
                "sapling subtree roots: "@
            } else {
                "orchard subtree roots: "@
            }) + text@
        }),
{
}

} // verus!
