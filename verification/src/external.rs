//! The calls into outside crates that the engine's decisions rest on, each with
//! what is relied on of it. Nothing here is proved.
use vstd::prelude::*;
use vstd::utf8::encode_utf8;

use prost::Message;
use zcash_keys::encoding::AddressCodec;
use zcash_primitives::merkle_tree::HashSer;

use crate::engine::Network;
use crate::text::decimal;

verus! {

// ---------------------------------------------------------------------------
// Types that are carried through
// ---------------------------------------------------------------------------

/// A block of the compact format, as `zcash_client_backend` hands it to a scan.
#[verifier::external_type_specification]
#[verifier::external_body]
pub struct ExCompactBlock(zcash_client_backend::proto::compact_formats::CompactBlock);

/// The state of the chain that a scan starts from.
#[verifier::external_type_specification]
#[verifier::external_body]
pub struct ExChainState(zcash_client_backend::data_api::chain::ChainState);

/// A partially created transaction.
#[verifier::external_type_specification]
#[verifier::external_body]
pub struct ExPczt(pczt::Pczt);

// ---------------------------------------------------------------------------
// Addresses
// ---------------------------------------------------------------------------

/// What kind of receiver an address stands for.
#[derive(Clone, Copy, Debug, PartialEq, Eq, Structural)]
pub enum AddressKind {
    Sapling,
    Transparent,
    Unified,
    Tex,
}

/// What is wrong with a text as a Zcash address, if anything.
pub uninterp spec fn address_fault(text: Seq<char>) -> Option<Seq<char>>;

/// What kind of receiver an address stands for on a network, or why it stands
/// for none.
pub uninterp spec fn address_kind(network: Network, text: Seq<char>) -> Result<
    AddressKind,
    Seq<char>,
>;

/// `ZcashAddress::from_str` of `zcash_address`: whether the text is an address
/// of any network, and the error in its debug form where it is not. The result
/// is a function of the text.
#[verifier::external_body]
pub(crate) fn check_address(text: &str) -> (r: Result<(), String>)
    ensures
        match r {
            Ok(_) => address_fault(text@) is None,
            Err(e) => address_fault(text@) == Some(e@),
        },
{
    match text.parse::<zcash_address::ZcashAddress>() {
        Ok(_) => Ok(()),
        Err(e) => Err(format!("{:?}", e)),
    }
}

/// `Address::try_from_zcash_address` of `zcash_keys`, on an address that
/// parses: the kind of the address on the network, or the error in its debug
/// form. The result is a function of the network and the text.
#[verifier::external_body]
pub(crate) fn convert_address(network: Network, text: &str) -> (r: Result<AddressKind, String>)
    requires
        address_fault(text@) is None,
    ensures
        match r {
            Ok(kind) => address_kind(network, text@) == Ok::<AddressKind, Seq<char>>(kind),
            Err(e) => address_kind(network, text@) == Err::<AddressKind, Seq<char>>(e@),
        },
{
    let params = match network {
        Network::Main => zcash_protocol::consensus::Network::MainNetwork,
        Network::Test => zcash_protocol::consensus::Network::TestNetwork,
    };
    let parsed = text.parse::<zcash_address::ZcashAddress>().unwrap();
    match zcash_keys::address::Address::try_from_zcash_address(&params, parsed) {
        Ok(zcash_keys::address::Address::Sapling(_)) => Ok(AddressKind::Sapling),
        Ok(zcash_keys::address::Address::Transparent(_)) => Ok(AddressKind::Transparent),
        Ok(zcash_keys::address::Address::Unified(_)) => Ok(AddressKind::Unified),
        Ok(zcash_keys::address::Address::Tex(_)) => Ok(AddressKind::Tex),
        Err(e) => Err(format!("{:?}", e)),
    }
}

/// A transparent receiver of the wallet.
#[derive(Clone, Copy, Debug, PartialEq, Eq)]
pub enum Receiver {
    PublicKeyHash([u8; 20]),
    ScriptHash([u8; 20]),
}

/// The text of the transparent address of a public key hash or a script hash.
pub uninterp spec fn receiver_text(network: Network, is_script: bool, hash: Seq<u8>) -> Seq<char>;

/// `AddressCodec::encode` of `zcash_keys` on a transparent address: the text is
/// a function of the network, the kind of hash and the hash.
#[verifier::external_body]
pub(crate) fn encode_receiver(network: Network, receiver: &Receiver) -> (r: String)
    ensures
        r@ == match *receiver {
            Receiver::PublicKeyHash(hash) => receiver_text(network, false, hash@),
            Receiver::ScriptHash(hash) => receiver_text(network, true, hash@),
        },
{
    let params = match network {
        Network::Main => zcash_protocol::consensus::Network::MainNetwork,
        Network::Test => zcash_protocol::consensus::Network::TestNetwork,
    };
    match receiver {
        Receiver::PublicKeyHash(hash) =>
            zcash_transparent::address::TransparentAddress::PublicKeyHash(*hash).encode(&params),
        Receiver::ScriptHash(hash) =>
            zcash_transparent::address::TransparentAddress::ScriptHash(*hash).encode(&params),
    }
}

// ---------------------------------------------------------------------------
// Amounts and memos
// ---------------------------------------------------------------------------

/// The most money there can be, in zatoshis.
pub const MAX_MONEY: u64 = 2_100_000_000_000_000;

/// `Zatoshis::from_u64` of `zcash_protocol`: it takes the amounts from 0 to
/// `MAX_MONEY` and refuses all others.
#[verifier::external_body]
pub(crate) fn zatoshis_from_u64(amount: u64) -> (r: Option<u64>)
    ensures
        r == if amount <= MAX_MONEY {
            Some(amount)
        } else {
            None
        },
{
    zcash_protocol::value::Zatoshis::from_u64(amount).ok().map(u64::from)
}

/// `Zatoshis::from_nonnegative_i64` of `zcash_protocol`: it takes the amounts
/// from 0 to `MAX_MONEY` and refuses all others.
#[verifier::external_body]
pub(crate) fn zatoshis_from_i64(amount: i64) -> (r: Option<u64>)
    ensures
        r == if 0 <= amount <= MAX_MONEY {
            Some(amount as u64)
        } else {
            None
        },
{
    zcash_protocol::value::Zatoshis::from_nonnegative_i64(amount).ok().map(u64::from)
}

/// How many bytes a memo has.
pub const MEMO_SIZE: u64 = 512;

/// The bytes, filled up with zeros to the size of a memo.
pub open spec fn padded_memo(bytes: Seq<u8>) -> Seq<u8> {
    bytes + Seq::new((MEMO_SIZE - bytes.len()) as nat, |i: int| 0u8)
}

/// `Memo::from_str` of `zcash_protocol`, and the bytes of the memo by
/// `MemoBytes::from`, on a text that is not empty: the text in UTF-8, filled up
/// with zeros, or the error in its debug form where the text is longer than a
/// memo.
#[verifier::external_body]
pub(crate) fn encode_memo(text: &str) -> (r: Result<Vec<u8>, String>)
    requires
        text@.len() > 0,
    ensures
        ({
            let bytes = encode_utf8(text@);
            match r {
                Ok(memo) => bytes.len() <= MEMO_SIZE && memo@ == padded_memo(bytes),
                Err(e) => bytes.len() > MEMO_SIZE && e@ == "TooLong("@ + decimal(bytes.len())
                    + ")"@,
            }
        }),
{
    match text.parse::<zcash_protocol::memo::Memo>() {
        Ok(memo) => Ok(zcash_protocol::memo::MemoBytes::from(&memo).as_array().to_vec()),
        Err(e) => Err(format!("{:?}", e)),
    }
}

// ---------------------------------------------------------------------------
// Keys
// ---------------------------------------------------------------------------

/// What is wrong with a text as an English mnemonic phrase, if anything.
pub uninterp spec fn phrase_fault(phrase: Seq<char>) -> Option<Seq<char>>;

/// The seed of a mnemonic phrase and a passphrase.
pub uninterp spec fn phrase_seed(phrase: Seq<char>, passphrase: Seq<char>) -> Seq<u8>;

/// The encoded unified spending key of an account, or why there is none.
pub uninterp spec fn spending_key(network: Network, seed: Seq<u8>, account: u32) -> Result<
    Seq<u8>,
    Seq<char>,
>;

/// `Mnemonic::from_phrase` of `bip0039`, for English: whether the text is a
/// mnemonic phrase, and the error in its debug form where it is not. The result
/// is a function of the text.
#[verifier::external_body]
pub(crate) fn check_phrase(phrase: &str) -> (r: Result<(), String>)
    ensures
        match r {
            Ok(_) => phrase_fault(phrase@) is None,
            Err(e) => phrase_fault(phrase@) == Some(e@),
        },
{
    match bip0039::Mnemonic::<bip0039::English>::from_phrase(phrase) {
        Ok(_) => Ok(()),
        Err(e) => Err(format!("{:?}", e)),
    }
}

/// `Mnemonic::to_seed` of `bip0039`, on a phrase that is an English mnemonic
/// phrase: the seed is a function of the phrase and the passphrase.
#[verifier::external_body]
pub(crate) fn seed_of_phrase(phrase: &str, passphrase: &str) -> (r: [u8; 64])
    requires
        phrase_fault(phrase@) is None,
    ensures
        r@ == phrase_seed(phrase@, passphrase@),
{
    bip0039::Mnemonic::<bip0039::English>::from_phrase(phrase).unwrap().to_seed(passphrase)
}

/// `UnifiedSpendingKey::from_seed` of `zcash_keys`, the key taken as the bytes
/// that `UnifiedSpendingKey::to_bytes` gives for the Orchard era and the error
/// in its debug form: the result is a function of the network, the seed and the
/// account.
#[verifier::external_body]
pub(crate) fn derive_spending_key(network: Network, seed: &[u8; 64], account: u32) -> (r: Result<
    Vec<u8>,
    String,
>)
    requires
        account < 0x8000_0000,
    ensures
        match r {
            Ok(key) => spending_key(network, seed@, account) == Ok::<Seq<u8>, Seq<char>>(key@),
            Err(e) => spending_key(network, seed@, account) == Err::<Seq<u8>, Seq<char>>(e@),
        },
{
    let params = match network {
        Network::Main => zcash_protocol::consensus::Network::MainNetwork,
        Network::Test => zcash_protocol::consensus::Network::TestNetwork,
    };
    let account = zip32::AccountId::try_from(account).unwrap();
    match zcash_keys::keys::UnifiedSpendingKey::from_seed(&params, seed, account) {
        Ok(key) => Ok(key.to_bytes(zcash_keys::keys::Era::Orchard)),
        Err(e) => Err(format!("{:?}", e)),
    }
}

/// `Zeroize::zeroize` of `zeroize` on an array of bytes: every byte becomes
/// zero.
#[verifier::external_body]
pub(crate) fn wipe(seed: &mut [u8; 64])
    ensures
        final(seed)@ == Seq::new(64, |i: int| 0u8),
{
    zeroize::Zeroize::zeroize(seed)
}

/// `Zeroize::zeroize` of `zeroize` on a vector of bytes: every byte becomes zero,
/// and the vector is emptied.
#[verifier::external_body]
pub(crate) fn wipe_bytes(bytes: &mut Vec<u8>)
    ensures
        final(bytes)@.len() == 0,
{
    zeroize::Zeroize::zeroize(bytes)
}

// ---------------------------------------------------------------------------
// The chain
// ---------------------------------------------------------------------------

/// What is wrong with bytes as a root of a Sapling subtree, if anything.
pub uninterp spec fn sapling_root_fault(bytes: Seq<u8>) -> Option<Seq<char>>;

/// What is wrong with bytes as a root of an Orchard subtree, if anything.
pub uninterp spec fn orchard_root_fault(bytes: Seq<u8>) -> Option<Seq<char>>;

/// `HashSer::read` of `zcash_primitives` on a node of `sapling_crypto`, the
/// node taken as its canonical bytes: it reads the first 32 bytes, and gives
/// the error in its debug form where there are fewer or where they are no
/// canonical encoding. Whether it does is a function of the bytes.
#[verifier::external_body]
pub(crate) fn read_sapling_root(bytes: &[u8]) -> (r: Result<[u8; 32], String>)
    ensures
        match r {
            Ok(root) => {
                &&& sapling_root_fault(bytes@) is None
                &&& bytes@.len() >= 32
                &&& root@ == bytes@.take(32)
            },
            Err(e) => sapling_root_fault(bytes@) == Some(e@),
        },
{
    match sapling_crypto::Node::read(bytes) {
        Ok(node) => Ok(node.to_bytes()),
        Err(e) => Err(format!("{:?}", e)),
    }
}

/// `HashSer::read` of `zcash_primitives` on a node of `orchard`, the node taken
/// as its canonical bytes: it reads the first 32 bytes, and gives the error in
/// its debug form where there are fewer or where they are no canonical
/// encoding. Whether it does is a function of the bytes.
#[verifier::external_body]
pub(crate) fn read_orchard_root(bytes: &[u8]) -> (r: Result<[u8; 32], String>)
    ensures
        match r {
            Ok(root) => {
                &&& orchard_root_fault(bytes@) is None
                &&& bytes@.len() >= 32
                &&& root@ == bytes@.take(32)
            },
            Err(e) => orchard_root_fault(bytes@) == Some(e@),
        },
{
    match orchard::tree::MerkleHashOrchard::read(bytes) {
        Ok(node) => Ok(node.to_bytes()),
        Err(e) => Err(format!("{:?}", e)),
    }
}

/// The debug form of the gRPC status that reports an internal error in the words
/// `text`.
pub uninterp spec fn internal_status(text: Seq<char>) -> Seq<char>;

/// `Status::internal` of `tonic`, in its debug form: a function of the words.
#[verifier::external_body]
pub(crate) fn internal_status_text(text: &str) -> (r: String)
    ensures
        r@ == internal_status(text@),
{
    format!("{:?}", tonic::Status::internal(text))
}

/// The script pays to a public key hash or to a script hash, in the one form of
/// each that a wallet understands.
pub open spec fn pays_to_hash(script: Seq<u8>) -> bool {
    ||| {
        &&& script.len() == 25
        &&& script[0] == 0x76 && script[1] == 0xa9 && script[2] == 0x14
        &&& script[23] == 0x88 && script[24] == 0xac
    }
    ||| {
        &&& script.len() == 23
        &&& script[0] == 0xa9 && script[1] == 0x14
        &&& script[22] == 0x87
    }
}

/// `WalletTransparentOutput::from_parts` of `zcash_client_backend`: it makes an
/// output of the parts exactly where the script pays to a public key hash or to
/// a script hash, each pushed by a single length byte. The other parts make no
/// difference.
#[verifier::external_body]
pub(crate) fn is_wallet_output(
    txid: &[u8; 32],
    index: u32,
    value: u64,
    script: &Vec<u8>,
    height: u32,
) -> (r: bool)
    requires
        value <= MAX_MONEY,
    ensures
        r == pays_to_hash(script@),
{
    let outpoint = zcash_transparent::bundle::OutPoint::new(*txid, index);
    let value = zcash_protocol::value::Zatoshis::from_u64(value).unwrap();
    let code = zcash_script::script::Code(script.clone());
    let txout = zcash_transparent::bundle::TxOut::new(
        value,
        zcash_transparent::address::Script(code),
    );
    let height = zcash_protocol::consensus::BlockHeight::from_u32(height);
    zcash_client_backend::wallet::WalletTransparentOutput::from_parts(outpoint, txout, Some(height))
        .is_some()
}

/// The compact block that bytes decode to, or why they do not.
pub uninterp spec fn decoded_block(data: Seq<u8>) -> Result<
    zcash_client_backend::proto::compact_formats::CompactBlock,
    Seq<char>,
>;

/// `Message::decode` of `prost` for a compact block: the block, or the error in
/// words, is a function of the bytes.
#[verifier::external_body]
pub(crate) fn decode_compact_block(data: &[u8]) -> (r: Result<
    zcash_client_backend::proto::compact_formats::CompactBlock,
    String,
>)
    ensures
        match r {
            Ok(block) => decoded_block(data@) == Ok::<
                zcash_client_backend::proto::compact_formats::CompactBlock,
                Seq<char>,
            >(block),
            Err(e) => decoded_block(data@) == Err::<
                zcash_client_backend::proto::compact_formats::CompactBlock,
                Seq<char>,
            >(e@),
        },
{
    match zcash_client_backend::proto::compact_formats::CompactBlock::decode(data) {
        Ok(block) => Ok(block),
        Err(e) => Err(e.to_string()),
    }
}

/// `Message::encode_to_vec` of `prost` for a compact block: the bytes decode to
/// the very block that was encoded.
#[verifier::external_body]
pub(crate) fn encode_compact_block(
    block: &zcash_client_backend::proto::compact_formats::CompactBlock,
) -> (r: Vec<u8>)
    ensures
        decoded_block(r@) is Ok && decoded_block(r@)->Ok_0 == *block,
{
    block.encode_to_vec()
}

/// The state of the chain that a tree state stands for, by its height, block
/// hash and Sapling and Orchard trees, or why it stands for none.
pub uninterp spec fn chain_state_of(
    height: u64,
    hash: Seq<char>,
    sapling_tree: Seq<char>,
    orchard_tree: Seq<char>,
) -> Result<zcash_client_backend::data_api::chain::ChainState, Seq<char>>;

/// Which of its nodes a note commitment tree has: its left and right leaf, and
/// each of its parents.
#[derive(Debug)]
pub struct TreeShape {
    pub left: bool,
    pub right: bool,
    pub parents: Vec<bool>,
}

/// The left leaf, the right leaf and the parents that an encoded Sapling tree
/// has; none where it cannot be read.
pub uninterp spec fn sapling_shape(text: Seq<char>) -> Option<(bool, bool, Seq<bool>)>;

/// The left leaf, the right leaf and the parents that an encoded Orchard tree
/// has; none where it cannot be read.
pub uninterp spec fn orchard_shape(text: Seq<char>) -> Option<(bool, bool, Seq<bool>)>;

/// `TreeState::sapling_tree` of `zcash_client_backend`, the tree taken by which
/// of its nodes are there: a function of the text. It never panics.
#[verifier::external_body]
pub(crate) fn read_sapling_tree(text: &str) -> (r: Option<TreeShape>)
    ensures
        match r {
            Some(t) => sapling_shape(text@) == Some((t.left, t.right, t.parents@)),
            None => sapling_shape(text@) is None,
        },
{
    let state = zcash_client_backend::proto::service::TreeState {
        sapling_tree: text.to_string(),
        ..Default::default()
    };
    state.sapling_tree().ok().map(|tree| TreeShape {
        left: tree.left().is_some(),
        right: tree.right().is_some(),
        parents: tree.parents().iter().map(|p| p.is_some()).collect(),
    })
}

/// `TreeState::orchard_tree` of `zcash_client_backend`, the tree taken by which
/// of its nodes are there: a function of the text. It never panics.
#[verifier::external_body]
pub(crate) fn read_orchard_tree(text: &str) -> (r: Option<TreeShape>)
    ensures
        match r {
            Some(t) => orchard_shape(text@) == Some((t.left, t.right, t.parents@)),
            None => orchard_shape(text@) is None,
        },
{
    let state = zcash_client_backend::proto::service::TreeState {
        orchard_tree: text.to_string(),
        ..Default::default()
    };
    state.orchard_tree().ok().map(|tree| TreeShape {
        left: tree.left().is_some(),
        right: tree.right().is_some(),
        parents: tree.parents().iter().map(|p| p.is_some()).collect(),
    })
}

/// A tree of this shape has a frontier: it has a left leaf, or no node at all.
pub open spec fn has_frontier(left: bool, right: bool, parents: Seq<bool>) -> bool {
    left || (!right && forall|i: int| 0 <= i < parents.len() ==> !#[trigger] parents[i])
}

/// An encoded tree that is empty, that cannot be read, or that has a frontier.
pub open spec fn is_sound(text: Seq<char>, shape: Option<(bool, bool, Seq<bool>)>) -> bool {
    text.len() == 0 || (shape matches Some((left, right, parents)) ==> has_frontier(
        left,
        right,
        parents,
    ))
}

/// `TreeState::to_chain_state` of `zcash_client_backend`: the chain state, or the
/// error in its debug form, is a function of the parts of the tree state. It
/// panics on a tree that can be read and has a right leaf or parents without a
/// left leaf.
#[verifier::external_body]
pub(crate) fn parse_tree_state(height: u64, hash: &str, sapling_tree: &str, orchard_tree: &str) -> (r:
    Result<zcash_client_backend::data_api::chain::ChainState, String>)
    requires
        is_sound(sapling_tree@, sapling_shape(sapling_tree@)),
        is_sound(orchard_tree@, orchard_shape(orchard_tree@)),
    ensures
        match r {
            Ok(state) => chain_state_of(height, hash@, sapling_tree@, orchard_tree@) == Ok::<
                zcash_client_backend::data_api::chain::ChainState,
                Seq<char>,
            >(state),
            Err(e) => chain_state_of(height, hash@, sapling_tree@, orchard_tree@) == Err::<
                zcash_client_backend::data_api::chain::ChainState,
                Seq<char>,
            >(e@),
        },
{
    let state = zcash_client_backend::proto::service::TreeState {
        network: String::new(),
        height,
        hash: hash.to_string(),
        time: 0,
        sapling_tree: sapling_tree.to_string(),
        orchard_tree: orchard_tree.to_string(),
    };
    state.to_chain_state().map_err(|e| format!("{:?}", e))
}

// ---------------------------------------------------------------------------
// Transactions
// ---------------------------------------------------------------------------

/// The partially created transaction that bytes stand for, or why they stand for
/// none.
pub uninterp spec fn parsed_pczt(bytes: Seq<u8>) -> Result<pczt::Pczt, Seq<char>>;

/// `Pczt::parse` of `pczt`: the transaction, or the error in its debug form, is a
/// function of the bytes.
#[verifier::external_body]
pub(crate) fn parse_pczt(bytes: &[u8]) -> (r: Result<pczt::Pczt, String>)
    ensures
        match r {
            Ok(signed) => parsed_pczt(bytes@) == Ok::<pczt::Pczt, Seq<char>>(signed),
            Err(e) => parsed_pczt(bytes@) == Err::<pczt::Pczt, Seq<char>>(e@),
        },
{
    pczt::Pczt::parse(bytes).map_err(|e| format!("{:?}", e))
}

/// `Pczt::serialize` of `pczt`: the bytes parse to the very transaction that was
/// serialised.
#[verifier::external_body]
pub(crate) fn serialize_pczt(unsigned: &pczt::Pczt) -> (r: Vec<u8>)
    ensures
        parsed_pczt(r@) is Ok && parsed_pczt(r@)->Ok_0 == *unsigned,
{
    unsigned.serialize()
}

// ---------------------------------------------------------------------------
// Paths
// ---------------------------------------------------------------------------

/// A path in its debug form.
pub uninterp spec fn debug_path(path: Seq<char>) -> Seq<char>;

/// The debug form of a `Path` of std: a function of the path.
#[verifier::external_body]
pub(crate) fn path_in_debug_form(path: &str) -> (r: String)
    ensures
        r@ == debug_path(path@),
{
    format!("{:?}", std::path::Path::new(path))
}

} // verus!
