use zcash_client_backend::proto::compact_formats::CompactBlock;
use zcash_client_backend::proto::service::TreeState;
use zipher_engine::cache::{read_block, row_height, with_blocks, write_block, BlockCacheError};
use zipher_engine::engine::Network;
use zipher_engine::external::{Receiver, TreeShape};
use zipher_engine::pass::{Pool, SyncError};
use zipher_engine::roots::{
    check_tree, download_chain_state, next_shard_index, read_roots, request_start, root_of, shard_query,
    shows_frontier, RootReply, TreeStateReply,
};
use zipher_engine::utxos::{
    accept_utxo, accept_utxos, parse_utxo, refresh_transparent_utxos, utxo_request, RefreshEvent,
    RefreshStage, UtxoRefresh, UtxoReply,
};

#[test]
fn cached_blocks_read_back() {
    let mut block = CompactBlock::default();
    block.height = 0x1_0000_0007;
    block.hash = vec![9; 32];
    let data = write_block(&block);
    assert_eq!(data, prost::Message::encode_to_vec(&block));
    assert_eq!(read_block(&data).unwrap(), block);
    let empty = CompactBlock::default();
    assert_eq!(read_block(&write_block(&empty)).unwrap(), empty);
    assert_eq!(row_height(block.height), 7);
    let e = read_block(&vec![0xff]).unwrap_err();
    assert!(e.message().starts_with("BlockCacheError: "));
    assert!(e.message().len() > "BlockCacheError: ".len());
    assert_eq!(BlockCacheError("x".to_string()).message(), "BlockCacheError: x");
}

#[test]
fn what_is_asked_of_the_cache() {
    let q = with_blocks(None, None);
    assert_eq!((q.from, q.limit), (0, u32::MAX));
    let q = with_blocks(Some(5), Some(100));
    assert_eq!((q.from, q.limit), (5, 100));
    let q = with_blocks(Some(5), Some(0x1_0000_0002));
    assert_eq!(q.limit, 2);
}

#[test]
fn shards() {
    assert_eq!(next_shard_index(None), 0);
    assert_eq!(next_shard_index(Some(0)), 1);
    assert_eq!(next_shard_index(Some(41)), 42);
    assert_eq!(shard_query(Pool::Sapling), "SELECT MAX(shard_index) FROM sapling_tree_shards");
    assert_eq!(shard_query(Pool::Orchard), "SELECT MAX(shard_index) FROM orchard_tree_shards");
    assert_eq!(request_start(0x2_0000_0003), 3);
}

fn reply(hash: Vec<u8>, height: u64) -> RootReply {
    RootReply { hash, height }
}

#[test]
fn subtree_roots_are_read() {
    for pool in [Pool::Sapling, Pool::Orchard] {
        let mut hash = vec![0u8; 40];
        hash[0] = 3;
        let roots =
            read_roots(pool, &vec![reply(hash, 0x1_0000_0005), reply(vec![0; 32], 6)]).unwrap();
        assert_eq!(roots.len(), 2);
        assert_eq!(roots[0].height, 5);
        assert_eq!(roots[0].hash[0], 3);
        assert_eq!(roots[1].height, 6);
        assert_eq!(roots[1].hash, [0u8; 32]);
        assert!(read_roots(pool, &vec![]).unwrap().is_empty());
    }
}

#[test]
fn a_bad_root_ends_the_reading() {
    let replies = vec![reply(vec![0; 32], 1), reply(vec![0xff; 32], 2), reply(vec![0; 31], 3)];
    let e = read_roots(Pool::Sapling, &replies).unwrap_err();
    let io = std::io::Error::new(
        std::io::ErrorKind::InvalidData,
        "Non-canonical encoding of Jubjub base field value.",
    );
    let status = tonic::Status::internal(format!("{:?}", io));
    assert_eq!(e.message(), format!("sapling subtree roots: {:?}", status));
    let e = read_roots(Pool::Orchard, &vec![reply(vec![0; 31], 3)]).unwrap_err();
    assert!(e.message().starts_with("orchard subtree roots: Status { code: Internal"));
    let e = root_of(Pool::Orchard, 1, Err("x".to_string())).unwrap_err();
    assert_eq!(e.message(), "orchard subtree roots: x");
    let r = root_of(Pool::Orchard, 0x1_0000_0001, Ok([4; 32])).unwrap();
    assert_eq!((r.height, r.hash), (1, [4; 32]));
}

fn state(height: u64, hash: &str) -> TreeStateReply {
    TreeStateReply {
        height,
        hash: hash.to_string(),
        sapling_tree: String::new(),
        orchard_tree: String::new(),
    }
}

#[test]
fn a_tree_state_is_read() {
    let hash = format!("{}01", "00".repeat(31));
    let chain = download_chain_state(&state(77, &hash)).unwrap();
    assert_eq!(u32::from(chain.block_height()), 77);
    assert_eq!(chain.block_hash().0[0], 1);
    let e = download_chain_state(&state(77, "zz")).unwrap_err();
    assert!(matches!(e, SyncError::Call(_, _)));
    assert!(e.message().starts_with("to_chain_state: "));
    let e = download_chain_state(&state(u64::MAX, &hash)).unwrap_err();
    assert!(e.message().contains("Invalid block height"));
}

fn tree_state(height: u64, hash: &str, sapling: &str, orchard: &str) -> TreeStateReply {
    TreeStateReply {
        height,
        hash: hash.to_string(),
        sapling_tree: sapling.to_string(),
        orchard_tree: orchard.to_string(),
    }
}

fn state_error(reply: &TreeStateReply) -> String {
    download_chain_state(reply).unwrap_err().message()
}

/// The words of the outside call, which the trees must not make panic.
fn outside_error(reply: &TreeStateReply) -> String {
    let state = TreeState {
        height: reply.height,
        hash: reply.hash.clone(),
        sapling_tree: reply.sapling_tree.clone(),
        orchard_tree: reply.orchard_tree.clone(),
        ..Default::default()
    };
    format!("to_chain_state: {:?}", state.to_chain_state().unwrap_err())
}

const NO_LEFT: &str = "to_chain_state: Note commitment tree without a left leaf";

#[test]
fn a_tree_without_a_left_leaf_is_refused() {
    let hash = "00".repeat(32);
    let zeros = "0".repeat(64);
    let right_alone = format!("0001{}00", zeros);
    let parent_alone = format!("00000101{}", zeros);
    for tree in [&right_alone, &parent_alone] {
        assert!(!check_tree(Pool::Sapling, tree));
        assert!(!check_tree(Pool::Orchard, tree));
        assert_eq!(state_error(&tree_state(7, &hash, tree, "")), NO_LEFT);
        assert_eq!(state_error(&tree_state(7, &hash, "", tree)), NO_LEFT);
    }
    let both = format!("01{}01{}020001{}", zeros, zeros, zeros);
    let reply = tree_state(7, &hash, &both, "0000020000");
    let chain = download_chain_state(&reply).unwrap();
    assert_eq!(chain.final_sapling_tree().tree_size(), 6);
    assert_eq!(chain.final_orchard_tree().tree_size(), 0);
}

#[test]
fn other_faults_of_a_tree_state_keep_their_words() {
    let hash = "00".repeat(32);
    let right_alone = format!("0001{}00", "0".repeat(64));
    for tree in [right_alone.as_str(), "0001"] {
        let short = state_error(&tree_state(7, "zz", tree, tree));
        assert_eq!(short, outside_error(&tree_state(7, "zz", tree, tree)));
        let high = state_error(&tree_state(u64::MAX, &hash, tree, tree));
        assert_eq!(high, outside_error(&tree_state(u64::MAX, &hash, tree, tree)));
        assert!(high.contains("Invalid block height"));
    }
    let noncanonical = format!("0001{}00", "f".repeat(64));
    for tree in ["0001", "00", "0002", "0001zz", "zz", "000", "00000102", noncanonical.as_str()] {
        assert!(check_tree(Pool::Sapling, tree));
        let reply = tree_state(7, &hash, tree, &right_alone);
        assert_eq!(state_error(&reply), outside_error(&reply));
        let reply = tree_state(7, &hash, "", tree);
        assert_eq!(state_error(&reply), outside_error(&reply));
    }
}

#[test]
fn shapes_of_trees() {
    let shape = |left: bool, right: bool, parents: Vec<bool>| TreeShape { left, right, parents };
    assert!(shows_frontier(&shape(false, false, vec![])));
    assert!(shows_frontier(&shape(false, false, vec![false, false])));
    assert!(shows_frontier(&shape(true, false, vec![true])));
    assert!(shows_frontier(&shape(true, true, vec![])));
    assert!(!shows_frontier(&shape(false, true, vec![])));
    assert!(!shows_frontier(&shape(false, false, vec![false, true])));
}

#[test]
fn addresses_of_receivers() {
    let receivers = vec![Receiver::PublicKeyHash([0; 20]), Receiver::ScriptHash([0; 20])];
    let r = utxo_request(Network::Main, &receivers, 9);
    assert_eq!(r.addresses[0], "t1Hsc1LR8yKnbbe3twRp88p6vFfC5t7DLbs");
    assert!(r.addresses[1].starts_with("t3"));
    assert_eq!((r.start_height, r.max_entries), (9, 0));
    let r = utxo_request(Network::Test, &receivers, 9);
    assert_eq!(r.addresses[0], "tm9iMLAuYMzJ6jtFLcA7rzUmfreGuKvr7Ma");
}

fn p2pkh() -> Vec<u8> {
    let mut script = vec![0x76, 0xa9, 0x14];
    script.extend_from_slice(&[7; 20]);
    script.extend_from_slice(&[0x88, 0xac]);
    script
}

fn utxo(index: i32) -> UtxoReply {
    UtxoReply { txid: vec![1; 32], index, value: 5, script: p2pkh(), height: 8 }
}

#[test]
fn acceptable_outputs() {
    let o = accept_utxo(&utxo(3)).unwrap();
    assert_eq!((o.txid, o.index, o.value, o.height), ([1; 32], 3, 5, 8));
    assert_eq!(o.script, p2pkh());
    assert!(parse_utxo(&utxo(3)).is_some());
    assert!(accept_utxo(&utxo(-1)).is_none());
    let mut r = utxo(0);
    r.txid = vec![1; 31];
    assert!(accept_utxo(&r).is_none());
    let mut r = utxo(0);
    r.value = -1;
    assert!(accept_utxo(&r).is_none());
    r.value = 2_100_000_000_000_001;
    assert!(accept_utxo(&r).is_none());
    r.value = 2_100_000_000_000_000;
    assert!(accept_utxo(&r).is_some());
    let mut r = utxo(0);
    r.height = 0x1_0000_0000;
    assert!(accept_utxo(&r).is_none());
    let mut r = utxo(0);
    r.script = vec![0xa9, 0x14];
    r.script.extend_from_slice(&[7; 20]);
    r.script.push(0x87);
    assert!(accept_utxo(&r).is_some());
    let mut pushed = vec![0xa9, 0x4c, 0x14];
    pushed.extend_from_slice(&[7; 20]);
    pushed.push(0x87);
    let mut key = vec![0x21];
    key.extend_from_slice(&[2; 33]);
    key.push(0xac);
    let mut longer = p2pkh();
    longer.push(0x51);
    for script in [vec![], pushed, key, vec![0x6a], longer] {
        r.script = script;
        assert!(parse_utxo(&r).is_some());
        assert!(accept_utxo(&r).is_none());
    }
}

#[test]
fn outputs_keep_their_order() {
    let outputs = accept_utxos(&vec![utxo(1), utxo(-1), utxo(2)]);
    assert_eq!(outputs.iter().map(|o| o.index).collect::<Vec<u32>>(), vec![1, 2]);
    assert!(accept_utxos(&vec![]).is_empty());
}

fn run(events: Vec<RefreshEvent>) -> UtxoRefresh {
    let mut s = refresh_transparent_utxos();
    for e in events {
        s = s.step(e);
    }
    s
}

#[test]
fn every_account_is_refreshed() {
    let s = run(vec![RefreshEvent::Accounts(0)]);
    assert!(matches!(s.stage, RefreshStage::Done(Ok(()))));
    let s = run(vec![
        RefreshEvent::Accounts(2),
        RefreshEvent::Height(5),
        RefreshEvent::Receivers(vec![]),
    ]);
    assert!(matches!(s.stage, RefreshStage::QueryHeight(1)));
    let s = s.step(RefreshEvent::Height(6));
    let s = s.step(RefreshEvent::Receivers(vec![Receiver::PublicKeyHash([0; 20])]));
    assert!(matches!(&s.stage, RefreshStage::Fetch(1, 6, r) if r.len() == 1));
    let s = s.step(RefreshEvent::Replies(vec![utxo(0)]));
    assert!(matches!(&s.stage, RefreshStage::Store(1, r) if r.len() == 1));
    let s = s.step(RefreshEvent::Stored);
    assert!(matches!(s.stage, RefreshStage::Done(Ok(()))));
}

fn refresh_error(mut events: Vec<RefreshEvent>) -> String {
    events.push(RefreshEvent::Failed("x".to_string()));
    match run(events).stage {
        RefreshStage::Done(Err(e)) => e.message(),
        _ => panic!("not ended"),
    }
}

#[test]
fn a_failed_refresh_says_where() {
    let receivers = || RefreshEvent::Receivers(vec![Receiver::PublicKeyHash([0; 20])]);
    assert_eq!(refresh_error(vec![]), "get_account_ids: x");
    assert_eq!(refresh_error(vec![RefreshEvent::Accounts(1)]), "utxo_query_height: x");
    assert_eq!(
        refresh_error(vec![RefreshEvent::Accounts(1), RefreshEvent::Height(1)]),
        "get_transparent_receivers: x"
    );
    assert_eq!(
        refresh_error(vec![RefreshEvent::Accounts(1), RefreshEvent::Height(1), receivers()]),
        "get_address_utxos: x"
    );
    assert_eq!(
        refresh_error(vec![
            RefreshEvent::Accounts(1),
            RefreshEvent::Height(1),
            receivers(),
            RefreshEvent::Replies(vec![]),
        ]),
        "put_received_transparent_utxo: x"
    );
}
