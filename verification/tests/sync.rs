use zipher_engine::engine::{Network, ZipherEngine};
use zipher_engine::inactive::{
    sync_inactive_wallet_batch, sync_inactive_wallets, BatchEvent, BatchStage, Blocks,
    InactiveEvent, InactiveStage,
};
use zipher_engine::pass::{
    batch_end, block_height, download_blocks, is_reorg, prior_height, sync_loop, wants_scan, Call,
    PassEvent, PassStage, Pool, ScanPriority, ScanRange, SubtreeRoot, SyncError, SyncPass,
};
use zipher_engine::retry::{sync_loop_with_retry, RetryEvent, RetryStage, SyncRetry};
use zipher_engine::sync::{
    clear_inactive_wallets, finish, get_progress, is_running, register_inactive_wallet,
    resume_stop, start, stop, unregister_inactive_wallet, StartError, StopWait, SyncControl,
    SyncProgressInfo,
};

fn engine() -> Option<ZipherEngine> {
    Some(ZipherEngine {
        db_data_path: "/w/zipher-data.sqlite".to_string(),
        db_cache_path: "/w/zipher-cache.sqlite".to_string(),
        params: Network::Test,
        server_url: "https://server".to_string(),
        birthday: 5,
        db_cipher_key: Some("k".to_string()),
    })
}

#[test]
fn a_synchronisation_starts_once() {
    let mut sync = SyncControl::new();
    assert!(!is_running(&sync));
    assert_eq!(start(&mut sync, &None).unwrap_err(), StartError::NotInitialized);
    assert_eq!(StartError::NotInitialized.message(), "Engine not initialized");
    sync.cancel = true;
    sync.progress.synced_height = 9;
    sync.progress.connection_error = Some("x".to_string());
    let job = start(&mut sync, &engine()).unwrap();
    assert_eq!(job.db_data_path, "/w/zipher-data.sqlite");
    assert_eq!(job.db_cache_path, "/w/zipher-cache.sqlite");
    assert_eq!(job.params, Network::Test);
    assert_eq!(job.server_url, "https://server");
    assert_eq!(job.db_cipher_key, Some("k".to_string()));
    assert!(is_running(&sync));
    assert!(!sync.cancel);
    let p = get_progress(&sync);
    assert!(p.is_syncing && p.synced_height == 0 && p.connection_error.is_none());
    assert_eq!(start(&mut sync, &engine()).unwrap_err(), StartError::AlreadyRunning);
    assert_eq!(StartError::AlreadyRunning.message(), "Sync already running");
    finish(&mut sync);
    assert!(!is_running(&sync) && !get_progress(&sync).is_syncing);
}

#[test]
fn a_request_to_stop_waits_and_ends() {
    let mut sync = SyncControl::new();
    assert_eq!(stop(&mut sync), StopWait::Stopped);
    assert!(sync.cancel);
    sync.running = true;
    let mut wait = stop(&mut sync);
    let mut sleeps = 0;
    while wait != StopWait::Stopped {
        sleeps += 1;
        wait = resume_stop(&mut sync, wait);
    }
    assert_eq!(sleeps, 100);
    assert!(!sync.running);
    sync.running = true;
    let wait = stop(&mut sync);
    assert_eq!(wait, StopWait::Sleep { left: 99 });
    finish(&mut sync);
    assert_eq!(resume_stop(&mut sync, wait), StopWait::Stopped);
}

#[test]
fn wallets_wait_for_a_turn_once() {
    let mut sync = SyncControl::new();
    register_inactive_wallet(&mut sync, "/a");
    register_inactive_wallet(&mut sync, "/b");
    register_inactive_wallet(&mut sync, "/a/");
    register_inactive_wallet(&mut sync, "/./a");
    assert_eq!(sync.inactive.len(), 2);
    assert_eq!(sync.inactive[0].db_data_path, "/a/zipher-data.sqlite");
    assert_eq!(sync.inactive[1].db_cache_path, "/b/zipher-cache.sqlite");
    unregister_inactive_wallet(&mut sync, "/a//");
    assert_eq!(sync.inactive.len(), 1);
    assert_eq!(sync.inactive[0].db_data_path, "/b/zipher-data.sqlite");
    unregister_inactive_wallet(&mut sync, "/c");
    assert_eq!(sync.inactive.len(), 1);
    clear_inactive_wallets(&mut sync);
    assert!(sync.inactive.is_empty());
}

#[test]
fn progress_is_empty_at_first() {
    let p = SyncProgressInfo::default();
    assert_eq!((p.synced_height, p.latest_height, p.scanning_up_to), (0, 0, 0));
    assert!(!p.is_syncing && p.connection_error.is_none());
}

fn range(start: u32, end: u32, priority: ScanPriority) -> ScanRange {
    ScanRange { start, end, priority }
}

#[test]
fn heights_and_batches() {
    assert_eq!(block_height(0x5_0000_0009), 9);
    assert_eq!(prior_height(0), 0);
    assert_eq!(prior_height(7), 6);
    assert_eq!(batch_end(10, 1000, 100), 110);
    assert_eq!(batch_end(950, 1000, 100), 1000);
    assert_eq!(batch_end(u32::MAX - 5, u32::MAX, 100), u32::MAX);
    let r = download_blocks(10, 110);
    assert_eq!((r.start, r.end), (10, 109));
    assert!(!wants_scan(&range(0, 1, ScanPriority::Scanned)));
    assert!(!wants_scan(&range(0, 1, ScanPriority::Ignored)));
    assert!(wants_scan(&range(0, 1, ScanPriority::Historic)));
    assert!(wants_scan(&range(0, 1, ScanPriority::Verify)));
}

#[test]
fn reorganisations_are_recognised() {
    for text in ["PrevHashMismatch", "a Continuity b", "ChainInvalid", "BlockConflict(3)"] {
        assert!(is_reorg(text));
    }
    assert!(!is_reorg("Io"));
}

#[test]
fn errors_of_a_pass() {
    assert_eq!(SyncError::Cancelled.message(), "Sync cancelled");
    assert_eq!(SyncError::Plain("x".to_string()).message(), "x");
    let texts = [
        (Call::SubtreeRoots(Pool::Sapling), "get_subtree_roots(sapling): x"),
        (Call::SubtreeRoots(Pool::Orchard), "get_subtree_roots(orchard): x"),
        (Call::SubtreeRootStream(Pool::Sapling), "sapling subtree roots: x"),
        (Call::SubtreeRootStream(Pool::Orchard), "orchard subtree roots: x"),
        (Call::PutSubtreeRoots(Pool::Sapling), "put_sapling_subtree_roots: x"),
        (Call::PutSubtreeRoots(Pool::Orchard), "put_orchard_subtree_roots: x"),
        (Call::LatestBlock, "get_latest_block: x"),
        (Call::UpdateChainTip, "update_chain_tip: x"),
        (Call::SuggestScanRanges, "suggest_scan_ranges: x"),
        (Call::TreeState, "get_tree_state: x"),
        (Call::ChainState, "to_chain_state: x"),
        (Call::BlockRange, "get_block_range: x"),
        (Call::BlockStream, "stream block: x"),
        (Call::InsertBlocks, "insert_blocks: x"),
        (Call::TruncateToHeight, "truncate_to_height: x"),
    ];
    for (call, text) in texts {
        assert_eq!(SyncError::Call(call, "x".to_string()).message(), text);
    }
}

fn feed(mut p: SyncPass, sync: &mut SyncControl, events: Vec<PassEvent>) -> SyncPass {
    for e in events {
        p = p.step(sync, e);
    }
    p
}

fn scanning(sync: &mut SyncControl, ranges: Vec<ScanRange>) -> SyncPass {
    feed(
        sync_loop(false),
        sync,
        vec![
            PassEvent::Finished,
            PassEvent::Finished,
            PassEvent::Finished,
            PassEvent::Tip(0x1_0000_0bb8),
            PassEvent::Finished,
            PassEvent::Finished,
            PassEvent::Ranges(ranges),
        ],
    )
}

#[test]
fn subtree_roots_come_first() {
    let mut sync = SyncControl::new();
    let p = feed(
        sync_loop(true),
        &mut sync,
        vec![PassEvent::Finished, PassEvent::Finished, PassEvent::Finished],
    );
    assert!(matches!(p.stage, PassStage::ShardIndex(Pool::Sapling)));
    let p = p.step(&mut sync, PassEvent::ShardIndex(4));
    assert!(matches!(p.stage, PassStage::FetchRoots(Pool::Sapling, 4)));
    let roots = vec![SubtreeRoot { height: 1, hash: [0; 32] }];
    let p = p.step(&mut sync, PassEvent::Roots(roots));
    assert!(matches!(&p.stage, PassStage::PutRoots(Pool::Sapling, 4, r) if r.len() == 1));
    let p = p.step(&mut sync, PassEvent::Finished);
    assert!(matches!(p.stage, PassStage::ShardIndex(Pool::Orchard)));
    let p = feed(p, &mut sync, vec![PassEvent::ShardIndex(0), PassEvent::Roots(vec![])]);
    assert!(matches!(p.stage, PassStage::FetchTip));
}

#[test]
fn a_range_is_scanned_in_batches() {
    let mut sync = SyncControl::new();
    let ranges = vec![range(0, 10, ScanPriority::Scanned), range(1000, 1150, ScanPriority::Historic)];
    let p = scanning(&mut sync, ranges);
    assert_eq!(sync.progress.latest_height, 3000);
    assert!(matches!(p.stage, PassStage::FetchChainState));
    assert_eq!((p.current, p.batch_end, p.batch_len()), (1000, 1100, 100));
    assert_eq!(p.chain_state_height(), 999);
    assert_eq!((p.block_request().start, p.block_request().end), (1000, 1099));
    let p = feed(p, &mut sync, vec![PassEvent::Finished, PassEvent::Blocks(100), PassEvent::Finished]);
    assert!(matches!(p.stage, PassStage::ScanBlocks));
    assert_eq!(sync.progress.scanning_up_to, 1100);
    let p = p.step(&mut sync, PassEvent::Scanned(1099));
    assert_eq!(sync.progress.synced_height, 1099);
    let p = p.step(&mut sync, PassEvent::Finished);
    assert_eq!(sync.progress.synced_height, 1100);
    assert!(sync.progress.is_syncing);
    assert_eq!((p.current, p.batch_end), (1100, 1150));
    let p = feed(
        p,
        &mut sync,
        vec![
            PassEvent::Finished,
            PassEvent::Blocks(50),
            PassEvent::Finished,
            PassEvent::Scanned(1150),
            PassEvent::Finished,
        ],
    );
    assert!(matches!(p.stage, PassStage::FetchTip));
    let p = feed(
        p,
        &mut sync,
        vec![PassEvent::Tip(1), PassEvent::Finished, PassEvent::Finished, PassEvent::Ranges(vec![])],
    );
    assert!(matches!(p.stage, PassStage::FullyScanned));
    let p = p.step(&mut sync, PassEvent::FullyScanned(1140));
    assert!(matches!(p.stage, PassStage::Done(Ok(()))));
    assert_eq!(sync.progress.synced_height, 1140);
}

#[test]
fn nothing_to_scan_ends_the_pass() {
    let mut sync = SyncControl::new();
    sync.progress.synced_height = 7;
    let p = scanning(&mut sync, vec![range(5, 5, ScanPriority::Historic)]);
    assert!(matches!(p.stage, PassStage::FullyScanned));
    let p = p.step(&mut sync, PassEvent::FullyScanned(0));
    assert!(matches!(p.stage, PassStage::Done(Ok(()))));
    assert_eq!(sync.progress.synced_height, 7);
}

#[test]
fn a_reorganisation_goes_back() {
    let mut sync = SyncControl::new();
    let p = scanning(&mut sync, vec![range(1000, 1150, ScanPriority::Historic)]);
    let p = feed(
        p,
        &mut sync,
        vec![
            PassEvent::Finished,
            PassEvent::Blocks(100),
            PassEvent::Finished,
            PassEvent::ScanFailed("PrevHashMismatch".to_string()),
        ],
    );
    assert!(matches!(p.stage, PassStage::ClearFailed(true)));
    let p = p.step(&mut sync, PassEvent::Finished);
    assert!(matches!(p.stage, PassStage::Truncate));
    assert_eq!(p.reorg_height(), 999);
    let p = p.step(&mut sync, PassEvent::Finished);
    assert!(matches!(p.stage, PassStage::FetchTip));
}

#[test]
fn another_scan_failure_gives_the_range_up() {
    let mut sync = SyncControl::new();
    let p = scanning(&mut sync, vec![range(1000, 1150, ScanPriority::Historic)]);
    let p = feed(
        p,
        &mut sync,
        vec![
            PassEvent::Finished,
            PassEvent::Blocks(100),
            PassEvent::Finished,
            PassEvent::ScanFailed("Io".to_string()),
            PassEvent::Finished,
        ],
    );
    assert!(matches!(p.stage, PassStage::FullyScanned));
    let p = scanning(&mut sync, vec![range(1000, 1150, ScanPriority::Historic)]);
    let p = feed(p, &mut sync, vec![PassEvent::Finished, PassEvent::Blocks(0)]);
    assert!(matches!(p.stage, PassStage::FullyScanned));
}

#[test]
fn a_cancelled_pass_ends() {
    let mut sync = SyncControl::new();
    sync.cancel = true;
    let p = feed(
        sync_loop(false),
        &mut sync,
        vec![PassEvent::Finished, PassEvent::Finished, PassEvent::Finished],
    );
    assert!(matches!(p.stage, PassStage::Done(Err(SyncError::Cancelled))));
    sync.cancel = false;
    let p = scanning(&mut sync, vec![range(1000, 1150, ScanPriority::Historic)]);
    let p = feed(
        p,
        &mut sync,
        vec![PassEvent::Finished, PassEvent::Blocks(100), PassEvent::Finished, PassEvent::Scanned(5)],
    );
    sync.cancel = true;
    let p = p.step(&mut sync, PassEvent::Finished);
    assert!(matches!(p.stage, PassStage::Done(Err(SyncError::Cancelled))));
    let p = p.step(&mut sync, PassEvent::Finished);
    assert!(matches!(p.stage, PassStage::Done(Err(SyncError::Cancelled))));
}

#[test]
fn a_failed_step_ends_the_pass() {
    let mut sync = SyncControl::new();
    let e = SyncError::Plain("db".to_string());
    let p = sync_loop(true).step(&mut sync, PassEvent::Failed(e));
    match p.stage {
        PassStage::Done(Err(e)) => assert_eq!(e.message(), "db"),
        _ => panic!("not ended"),
    }
}

fn wait_out(mut r: SyncRetry, sync: &mut SyncControl) -> (SyncRetry, u32) {
    let mut seconds = 0;
    while matches!(r.stage, RetryStage::Idle { .. } | RetryStage::BackOff { .. }) {
        r = r.step(sync, RetryEvent::Slept);
        seconds += 1;
    }
    (r, seconds)
}

#[test]
fn waits_grow_with_failures() {
    let mut sync = SyncControl::new();
    let mut r = sync_loop_with_retry(&sync);
    assert!(r.first_pass);
    for expected in [5, 10, 20, 40, 60, 60] {
        r = r.step(&mut sync, RetryEvent::PassFailed("no route".to_string()));
        assert_eq!(sync.progress.connection_error, Some("no route".to_string()));
        let (next, seconds) = wait_out(r, &mut sync);
        assert_eq!(seconds, expected);
        r = next;
        assert!(r.first_pass);
        assert!(matches!(r.stage, RetryStage::RunPass));
    }
    r = r.step(&mut sync, RetryEvent::PassSucceeded);
    assert!(sync.progress.connection_error.is_none());
    assert!(!r.first_pass);
    let (r, seconds) = wait_out(r, &mut sync);
    assert_eq!(seconds, 30);
    let r = r.step(&mut sync, RetryEvent::PassFailed("x".to_string()));
    let (_, seconds) = wait_out(r, &mut sync);
    assert_eq!(seconds, 5);
}

#[test]
fn a_cancelled_synchronisation_ends() {
    let mut sync = SyncControl::new();
    let r = sync_loop_with_retry(&sync);
    let r = r.step(&mut sync, RetryEvent::PassFailed("Sync cancelled".to_string()));
    match r.stage {
        RetryStage::Done(Err(e)) => assert_eq!(e.message(), "Sync cancelled"),
        _ => panic!("not ended"),
    }
    assert!(sync.progress.connection_error.is_none());
    let r = sync_loop_with_retry(&sync).step(&mut sync, RetryEvent::PassSucceeded);
    sync.cancel = true;
    let r = r.step(&mut sync, RetryEvent::Slept);
    assert!(matches!(r.stage, RetryStage::Done(Ok(()))));
    let r = sync_loop_with_retry(&sync);
    assert!(matches!(r.stage, RetryStage::Done(Err(SyncError::Cancelled))));
    sync.cancel = false;
    let r = sync_loop_with_retry(&sync);
    let r = r.step(&mut sync, RetryEvent::PassFailed("x".to_string()));
    sync.cancel = true;
    let r = r.step(&mut sync, RetryEvent::Slept);
    assert!(matches!(r.stage, RetryStage::Done(Err(SyncError::Cancelled))));
}

fn batch(sync: &SyncControl, events: Vec<BatchEvent>) -> BatchStage {
    let mut s = sync_inactive_wallet_batch();
    for e in events {
        s = s.step(sync, e);
    }
    s
}

fn up_to_ranges(ranges: Vec<ScanRange>) -> Vec<BatchEvent> {
    vec![
        BatchEvent::Finished,
        BatchEvent::Finished,
        BatchEvent::Finished,
        BatchEvent::Tip(0x1_0000_0064),
        BatchEvent::Finished,
        BatchEvent::Ranges(ranges),
    ]
}

#[test]
fn an_inactive_wallet_gets_one_batch() {
    let sync = SyncControl::new();
    let ranges = vec![range(0, 9, ScanPriority::Scanned), range(100, 2000, ScanPriority::ChainTip)];
    let s = batch(&sync, up_to_ranges(ranges));
    let blocks = Blocks { start: 100, end: 600 };
    assert!(matches!(s, BatchStage::FetchChainState(b) if b == blocks));
    assert_eq!(blocks.count(), 500);
    let s = s.step(&sync, BatchEvent::Finished).step(&sync, BatchEvent::Blocks(3));
    assert!(matches!(s, BatchStage::InsertBlocks(_)));
    let s = s.step(&sync, BatchEvent::Finished);
    assert!(matches!(s, BatchStage::ScanBlocks(_)));
    let s = s.step(&sync, BatchEvent::Failed(SyncError::Plain("scan".to_string())));
    assert!(matches!(s, BatchStage::ScanBlocks(_)));
    let s = s.step(&sync, BatchEvent::Finished);
    assert!(matches!(s, BatchStage::Clear(b) if b == blocks));
    let s = s.step(&sync, BatchEvent::Finished);
    assert!(matches!(s, BatchStage::Done(Ok(()))));
}

#[test]
fn an_inactive_wallet_may_have_nothing_to_do() {
    let mut sync = SyncControl::new();
    let s = batch(&sync, up_to_ranges(vec![]));
    assert!(matches!(s, BatchStage::Done(Ok(()))));
    let wanted = || vec![range(100, 2000, ScanPriority::ChainTip)];
    let s = batch(&sync, up_to_ranges(wanted()));
    let s = s.step(&sync, BatchEvent::Finished).step(&sync, BatchEvent::Blocks(0));
    assert!(matches!(s, BatchStage::Done(Ok(()))));
    sync.cancel = true;
    let s = batch(&sync, up_to_ranges(wanted()));
    assert!(matches!(s, BatchStage::Done(Ok(()))));
    let s = batch(&sync, vec![BatchEvent::Failed(SyncError::Plain("db".to_string()))]);
    assert!(matches!(s, BatchStage::Done(Err(SyncError::Plain(_)))));
}

#[test]
fn inactive_wallets_have_their_turns() {
    let mut sync = SyncControl::new();
    assert_eq!(sync_inactive_wallets(&sync).stage, InactiveStage::Done);
    register_inactive_wallet(&mut sync, "/a");
    register_inactive_wallet(&mut sync, "/b");
    let r = sync_inactive_wallets(&sync);
    assert_eq!(r.wallets.len(), 2);
    assert_eq!(r.stage, InactiveStage::Look(0));
    let r = r.step(&sync, InactiveEvent::Exists(false));
    assert_eq!(r.stage, InactiveStage::Look(1));
    let r = r.step(&sync, InactiveEvent::Exists(true));
    assert_eq!(r.stage, InactiveStage::Batch(1));
    let r = r.step(&sync, InactiveEvent::Ended);
    assert_eq!(r.stage, InactiveStage::Done);
    let r = sync_inactive_wallets(&sync);
    sync.cancel = true;
    let r = r.step(&sync, InactiveEvent::Exists(true));
    assert_eq!(r.stage, InactiveStage::Batch(0));
    let r = r.step(&sync, InactiveEvent::Ended);
    assert_eq!(r.stage, InactiveStage::Done);
}
