//! The state that a synchronisation shares with its observers: whether it runs,
//! how far it got, and which other wallets wait for a turn.
use vstd::prelude::*;

use crate::engine::{db_paths, Network, ZipherEngine};
use crate::paths::same_path;

verus! {

/// How far the synchronisation got.
#[derive(Debug)]
pub struct SyncProgressInfo {
    pub synced_height: u32,
    pub latest_height: u32,
    pub is_syncing: bool,
    pub connection_error: Option<String>,
    pub scanning_up_to: u32,
}

impl Default for SyncProgressInfo {
    fn default() -> (r: Self)
        ensures
            r == idle_progress(),
    {
        SyncProgressInfo {
            synced_height: 0,
            latest_height: 0,
            is_syncing: false,
            connection_error: None,
            scanning_up_to: 0,
        }
    }
}

impl Clone for SyncProgressInfo {
    fn clone(&self) -> (r: Self)
        ensures
            r == *self,
    {
        SyncProgressInfo {
            synced_height: self.synced_height,
            latest_height: self.latest_height,
            is_syncing: self.is_syncing,
            connection_error: match &self.connection_error {
                Some(text) => Some(text.clone()),
                None => None,
            },
            scanning_up_to: self.scanning_up_to,
        }
    }
}

/// Nothing synchronised, nothing running.
pub open spec fn idle_progress() -> SyncProgressInfo {
    SyncProgressInfo {
        synced_height: 0,
        latest_height: 0,
        is_syncing: false,
        connection_error: None,
        scanning_up_to: 0,
    }
}

/// A wallet that is not the open one and is synchronised in the background.
#[derive(Debug)]
pub struct InactiveWallet {
    pub db_data_path: String,
    pub db_cache_path: String,
}

impl Clone for InactiveWallet {
    fn clone(&self) -> (r: Self)
        ensures
            r == *self,
    {
        InactiveWallet {
            db_data_path: self.db_data_path.clone(),
            db_cache_path: self.db_cache_path.clone(),
        }
    }
}

/// The shared state of the synchronisation.
#[derive(Debug)]
pub struct SyncControl {
    pub running: bool,
    pub cancel: bool,
    pub progress: SyncProgressInfo,
    pub inactive: Vec<InactiveWallet>,
}

/// What a synchronisation needs to know of the engine.
#[derive(Debug)]
pub struct SyncJob {
    pub db_data_path: String,
    pub db_cache_path: String,
    pub params: Network,
    pub server_url: String,
    pub db_cipher_key: Option<String>,
}

/// Why a synchronisation was not started.
#[derive(Clone, Copy, Debug, PartialEq, Eq, Structural)]
pub enum StartError {
    AlreadyRunning,
    NotInitialized,
}

impl StartError {
    /// The reason in words.
    pub fn message(&self) -> (r: String)
        ensures
            r@ == match *self {
                StartError::AlreadyRunning => "Sync already running"@,
                StartError::NotInitialized => "Engine not initialized"@,
            },
    {
        match self {
            StartError::AlreadyRunning => "Sync already running".to_owned(),
            StartError::NotInitialized => "Engine not initialized".to_owned(),
        }
    }
}

/// The two wallets have different wallet databases, whichever way their paths
/// are written.
pub open spec fn distinct_wallets(wallets: Seq<InactiveWallet>) -> bool {
    forall|i: int, j: int|
        #![trigger wallets[i], wallets[j]]
        0 <= i < j < wallets.len() ==> !crate::paths::same_path_spec(
            wallets[i].db_data_path@,
            wallets[j].db_data_path@,
        )
}

/// Some wallet of the list has its wallet database at `path`.
pub open spec fn has_wallet(wallets: Seq<InactiveWallet>, path: Seq<char>) -> bool {
    exists|i: int|
        0 <= i < wallets.len() && crate::paths::same_path_spec(
            #[trigger] wallets[i].db_data_path@,
            path,
        )
}

/// The wallets whose wallet database is not at `path`, in order.
pub open spec fn without_wallet(wallets: Seq<InactiveWallet>, path: Seq<char>) -> Seq<
    InactiveWallet,
> {
    wallets.filter(|w: InactiveWallet| !crate::paths::same_path_spec(w.db_data_path@, path))
}

impl SyncControl {
    /// No wallet waits twice for a turn.
    pub open spec fn wf(&self) -> bool {
        distinct_wallets(self.inactive@)
    }

    /// Nothing runs, nothing is known.
    pub fn new() -> (r: SyncControl)
        ensures
            r.wf(),
            !r.running,
            !r.cancel,
            r.progress == idle_progress(),
            r.inactive@.len() == 0,
    {
        SyncControl {
            running: false,
            cancel: false,
            progress: SyncProgressInfo::default(),
            inactive: Vec::new(),
        }
    }
}

/// The job of an engine.
pub open spec fn job_of(engine: ZipherEngine) -> SyncJob {
    SyncJob {
        db_data_path: engine.db_data_path,
        db_cache_path: engine.db_cache_path,
        params: engine.params,
        server_url: engine.server_url,
        db_cipher_key: engine.db_cipher_key,
    }
}

/// The job that is handed out when a synchronisation is started, or why there is
/// none.
pub open spec fn start_answer(sync: SyncControl, engine: Option<ZipherEngine>) -> Result<
    SyncJob,
    StartError,
> {
    if sync.running {
        Err(StartError::AlreadyRunning)
    } else {
        match engine {
            None => Err(StartError::NotInitialized),
            Some(e) => Ok(job_of(e)),
        }
    }
}

/// The shared state when a synchronisation was started, or could not be.
pub open spec fn after_start(sync: SyncControl, engine: Option<ZipherEngine>) -> SyncControl {
    if start_answer(sync, engine) is Err {
        sync
    } else {
        SyncControl {
            running: true,
            cancel: false,
            progress: SyncProgressInfo { is_syncing: true, ..idle_progress() },
            ..sync
        }
    }
}

/// The shared state when the job has ended.
pub open spec fn after_finish(sync: SyncControl) -> SyncControl {
    SyncControl {
        running: false,
        progress: SyncProgressInfo { is_syncing: false, ..sync.progress },
        ..sync
    }
}

/// Starts a synchronisation: marks it as running, withdraws any earlier
/// cancellation and clears the progress. The caller then runs the job.
pub fn start(sync: &mut SyncControl, engine: &Option<ZipherEngine>) -> (r: Result<
    SyncJob,
    StartError,
>)
    ensures
        r == start_answer(*old(sync), *engine),
        *final(sync) == after_start(*old(sync), *engine),
{
    if sync.running {
        return Err(StartError::AlreadyRunning);
    }
    match engine {
        None => Err(StartError::NotInitialized),
        Some(e) => {
            sync.running = true;
            sync.cancel = false;
            sync.progress.is_syncing = true;
            sync.progress.synced_height = 0;
            sync.progress.latest_height = 0;
            sync.progress.connection_error = None;
            sync.progress.scanning_up_to = 0;
            Ok(
                SyncJob {
                    db_data_path: e.db_data_path.clone(),
                    db_cache_path: e.db_cache_path.clone(),
                    params: e.params,
                    server_url: e.server_url.clone(),
                    db_cipher_key: match &e.db_cipher_key {
                        Some(k) => Some(k.clone()),
                        None => None,
                    },
                },
            )
        },
    }
}

/// Notes that the job that `start` handed out has ended.
pub fn finish(sync: &mut SyncControl)
    ensures
        *final(sync) == after_finish(*old(sync)),
{
    sync.running = false;
    sync.progress.is_syncing = false;
}

/// What a request to stop waits for.
#[derive(Clone, Copy, Debug, PartialEq, Eq, Structural)]
pub enum StopWait {
    /// Wait a tenth of a second, then look again, at most `left` times.
    Sleep { left: u32 },
    /// The synchronisation has stopped, or is taken to have stopped.
    Stopped,
}

/// How often a request to stop looks whether the synchronisation has stopped.
pub const STOP_POLLS: u32 = 100;

/// The first look of a request to stop, where `running` says whether the
/// synchronisation runs.
pub open spec fn first_look(running: bool) -> StopWait {
    if running {
        StopWait::Sleep { left: (STOP_POLLS - 1) as u32 }
    } else {
        StopWait::Stopped
    }
}

/// What a request to stop comes to after a wait.
pub open spec fn next_look(wait: StopWait, running: bool) -> StopWait {
    match wait {
        StopWait::Stopped => StopWait::Stopped,
        StopWait::Sleep { left } => if left > 0 && running {
            StopWait::Sleep { left: (left - 1) as u32 }
        } else {
            StopWait::Stopped
        },
    }
}

/// Whether the synchronisation still counts as running after that: not once all
/// looks are used up.
pub open spec fn still_running(wait: StopWait, running: bool) -> bool {
    running && wait != (StopWait::Sleep { left: 0 })
}

/// The shared state when the synchronisation was asked to stop.
pub open spec fn after_stop(sync: SyncControl) -> SyncControl {
    SyncControl { cancel: true, ..sync }
}

/// Asks the synchronisation to stop, and looks once whether it has.
pub fn stop(sync: &mut SyncControl) -> (r: StopWait)
    ensures
        *final(sync) == after_stop(*old(sync)),
        r == first_look(old(sync).running),
{
    sync.cancel = true;
    if sync.running {
        StopWait::Sleep { left: STOP_POLLS - 1 }
    } else {
        StopWait::Stopped
    }
}

/// Goes on with a request to stop after a wait. Once all looks are used up the
/// synchronisation is taken to have stopped.
pub fn resume_stop(sync: &mut SyncControl, wait: StopWait) -> (r: StopWait)
    ensures
        r == next_look(wait, old(sync).running),
        *final(sync) == (SyncControl {
            running: still_running(wait, old(sync).running),
            ..*old(sync)
        }),
{
    match wait {
        StopWait::Stopped => StopWait::Stopped,
        StopWait::Sleep { left } => {
            if left == 0 {
                sync.running = false;
                StopWait::Stopped
            } else if sync.running {
                StopWait::Sleep { left: left - 1 }
            } else {
                StopWait::Stopped
            }
        },
    }
}

/// Whether a synchronisation runs.
pub fn is_running(sync: &SyncControl) -> (r: bool)
    ensures
        r == sync.running,
{
    sync.running
}

/// How far the synchronisation got.
pub fn get_progress(sync: &SyncControl) -> (r: SyncProgressInfo)
    ensures
        r == sync.progress,
{
    sync.progress.clone()
}

/// The list `after` is the list `before` with the wallet in `data_dir` added
/// behind it, unless it was there already.
pub open spec fn is_registered(
    before: Seq<InactiveWallet>,
    after: Seq<InactiveWallet>,
    data_dir: Seq<char>,
) -> bool {
    let path = crate::engine::data_path(data_dir);
    if has_wallet(before, path) {
        after == before
    } else {
        &&& after.len() == before.len() + 1
        &&& after.drop_last() == before
        &&& after.last().db_data_path@ == path
        &&& after.last().db_cache_path@ == crate::engine::cache_path(data_dir)
    }
}

/// Adds the wallet in `data_dir` to the wallets that are synchronised in the
/// background, unless it is there already.
pub fn register_inactive_wallet(sync: &mut SyncControl, data_dir: &str)
    ensures
        old(sync).wf() ==> final(sync).wf(),
        is_registered(old(sync).inactive@, final(sync).inactive@, data_dir@),
        final(sync).running == old(sync).running,
        final(sync).cancel == old(sync).cancel,
        final(sync).progress == old(sync).progress,
{
    let (db_data_path, db_cache_path) = db_paths(data_dir);
    let ghost path = db_data_path@;
    for i in 0..sync.inactive.len()
        invariant
            *sync == *old(sync),
            path == db_data_path@,
            path == crate::engine::data_path(data_dir@),
            forall|k: int|
                0 <= k < i ==> !crate::paths::same_path_spec(
                    #[trigger] sync.inactive@[k].db_data_path@,
                    path,
                ),
    {
        if same_path(sync.inactive[i].db_data_path.as_str(), db_data_path.as_str()) {
            assert(has_wallet(old(sync).inactive@, path));
            return ;
        }
    }
    let ghost before = sync.inactive@;
    sync.inactive.push(InactiveWallet { db_data_path, db_cache_path });
    assert(sync.inactive@.drop_last() =~= before);
}

/// Takes the wallet in `data_dir` off the wallets that are synchronised in the
/// background.
pub fn unregister_inactive_wallet(sync: &mut SyncControl, data_dir: &str)
    ensures
        old(sync).wf() ==> final(sync).wf(),
        final(sync).inactive@ == without_wallet(
            old(sync).inactive@,
            crate::engine::data_path(data_dir@),
        ),
        final(sync).running == old(sync).running,
        final(sync).cancel == old(sync).cancel,
        final(sync).progress == old(sync).progress,
{
    let (db_data_path, _) = db_paths(data_dir);
    let ghost path = db_data_path@;
    let ghost keep = |w: InactiveWallet|
        !crate::paths::same_path_spec(w.db_data_path@, path);
    let ghost before = sync.inactive@;
    let mut i: usize = 0;
    let ghost mut seen: int = 0;
    proof {
        reveal(Seq::filter);
        assert(before.take(0) =~= Seq::<InactiveWallet>::empty());
        assert(before.take(0).filter(keep) + before.skip(0) =~= before);
    }
    while i < sync.inactive.len()
        invariant
            0 <= seen <= before.len(),
            sync.inactive@ == before.take(seen).filter(keep) + before.skip(seen),
            i == before.take(seen).filter(keep).len(),
            sync.running == old(sync).running,
            sync.cancel == old(sync).cancel,
            sync.progress == old(sync).progress,
            path == db_data_path@,
            keep == (|w: InactiveWallet|
                !crate::paths::same_path_spec(w.db_data_path@, path)),
        decreases before.len() - seen,
    {
        let ghost kept = before.take(seen).filter(keep);
        proof {
            assert(seen < before.len());
            assert(sync.inactive@[i as int] == before[seen]);
            reveal(Seq::filter);
            assert(before.take(seen + 1).drop_last() =~= before.take(seen));
            assert(kept.push(before[seen]) + before.skip(seen + 1) =~= kept + before.skip(seen));
            assert((kept + before.skip(seen)).remove(i as int) =~= kept + before.skip(seen + 1));
        }
        if same_path(sync.inactive[i].db_data_path.as_str(), db_data_path.as_str()) {
            sync.inactive.remove(i);
        } else {
            i = i + 1;
        }
        proof {
            seen = seen + 1;
        }
    }
    proof {
        assert(seen == before.len());
        assert(before.take(seen) =~= before);
        assert(before.filter(keep) + before.skip(seen) =~= before.filter(keep));
        if old(sync).wf() {
            lemma_filter_keeps_distinct(before, path);
        }
    }
}

/// What is left when the wallets at a path are taken away: wallets of the list,
/// none at the path, and all that are not.
proof fn lemma_filtered(wallets: Seq<InactiveWallet>, path: Seq<char>)
    ensures
        forall|i: int|
            0 <= i < without_wallet(wallets, path).len() ==> wallets.contains(
                #[trigger] without_wallet(wallets, path)[i],
            ) && !crate::paths::same_path_spec(
                without_wallet(wallets, path)[i].db_data_path@,
                path,
            ),
        forall|i: int|
            0 <= i < wallets.len() && !crate::paths::same_path_spec(
                #[trigger] wallets[i].db_data_path@,
                path,
            ) ==> without_wallet(wallets, path).contains(wallets[i]),
    decreases wallets.len(),
{
    reveal(Seq::filter);
    let keep = |w: InactiveWallet| !crate::paths::same_path_spec(w.db_data_path@, path);
    if wallets.len() > 0 {
        let init = wallets.drop_last();
        let last = wallets.last();
        lemma_filtered(init, path);
        let kept = without_wallet(init, path);
        let all = without_wallet(wallets, path);
        assert(all == (if keep(last) {
            kept.push(last)
        } else {
            kept
        }));
        assert forall|i: int| 0 <= i < all.len() implies wallets.contains(#[trigger] all[i])
            && !crate::paths::same_path_spec(all[i].db_data_path@, path) by {
            if i < kept.len() {
                assert(all[i] == kept[i]);
                assert(init.contains(kept[i]));
                let k = choose|k: int| 0 <= k < init.len() && init[k] == kept[i];
                assert(wallets[k] == kept[i]);
            } else {
                assert(all[i] == wallets[wallets.len() - 1]);
            }
        }
        assert forall|i: int|
            0 <= i < wallets.len() && !crate::paths::same_path_spec(
                #[trigger] wallets[i].db_data_path@,
                path,
            ) implies all.contains(wallets[i]) by {
            if i < init.len() {
                assert(init[i] == wallets[i]);
                assert(init[i].db_data_path@ == wallets[i].db_data_path@);
                assert(kept.contains(init[i]));
                let k = choose|k: int| 0 <= k < kept.len() && kept[k] == init[i];
                assert(all[k] == wallets[i]);
            } else {
                assert(all[all.len() - 1] == wallets[i]);
            }
        }
    }
}

/// Taking wallets away leaves the others distinct.
proof fn lemma_filter_keeps_distinct(wallets: Seq<InactiveWallet>, path: Seq<char>)
    requires
        distinct_wallets(wallets),
    ensures
        distinct_wallets(without_wallet(wallets, path)),
    decreases wallets.len(),
{
    reveal(Seq::filter);
    let keep = |w: InactiveWallet| !crate::paths::same_path_spec(w.db_data_path@, path);
    if wallets.len() > 0 {
        let init = wallets.drop_last();
        let last = wallets.last();
        assert forall|i: int, j: int|
            #![trigger init[i], init[j]]
            0 <= i < j < init.len() implies !crate::paths::same_path_spec(
            init[i].db_data_path@,
            init[j].db_data_path@,
        ) by {
            assert(init[i] == wallets[i] && init[j] == wallets[j]);
        }
        lemma_filter_keeps_distinct(init, path);
        lemma_filtered(init, path);
        let kept = without_wallet(init, path);
        let all = without_wallet(wallets, path);
        assert(all == (if keep(last) {
            kept.push(last)
        } else {
            kept
        }));
        assert forall|i: int, j: int|
            #![trigger all[i], all[j]]
            0 <= i < j < all.len() implies !crate::paths::same_path_spec(
            all[i].db_data_path@,
            all[j].db_data_path@,
        ) by {
            if j < kept.len() {
                assert(all[i] == kept[i] && all[j] == kept[j]);
            } else {
                assert(all[i] == kept[i]);
                assert(init.contains(kept[i]));
                let k = choose|k: int| 0 <= k < init.len() && init[k] == kept[i];
                assert(wallets[k] == kept[i]);
                assert(all[j] == wallets[wallets.len() - 1]);
            }
        }
    }
}

/// Takes all wallets off the wallets that are synchronised in the background.
pub fn clear_inactive_wallets(sync: &mut SyncControl)
    ensures
        final(sync).wf(),
        final(sync).inactive@.len() == 0,
        final(sync).running == old(sync).running,
        final(sync).cancel == old(sync).cancel,
        final(sync).progress == old(sync).progress,
{
    sync.inactive.clear();
}

// ---------------------------------------------------------------------------
// Laws
// ---------------------------------------------------------------------------

/// What a request to stop comes to when `running` holds what its looks see, the
/// first look first.
pub open spec fn looks(running: Seq<bool>) -> StopWait
    recommends
        running.len() > 0,
    decreases running.len(),
{
    if running.len() <= 1 {
        first_look(running[0])
    } else {
        next_look(looks(running.drop_last()), running.last())
    }
}

proof fn lemma_looks(running: Seq<bool>)
    requires
        running.len() > 0,
    ensures
        looks(running) matches StopWait::Sleep { left } ==> left + running.len() == STOP_POLLS,
    decreases running.len(),
{
    if running.len() > 1 {
        lemma_looks(running.drop_last());
    }
}

/// A request to stop ends: after a hundred waits at the latest, whatever the
/// synchronisation does.
pub proof fn law_a_request_to_stop_ends(running: Seq<bool>)
    requires
        running.len() > STOP_POLLS,
    ensures
        looks(running) == StopWait::Stopped,
{
    lemma_looks(running);
}

/// Once a request to stop has ended, the synchronisation does not count as
/// running, whether or not it took notice.
pub proof fn law_stopped_means_not_running(wait: StopWait, running: bool)
    ensures
        first_look(running) == StopWait::Stopped ==> !running,
        wait is Sleep && next_look(wait, running) == StopWait::Stopped ==> !still_running(
            wait,
            running,
        ),
{
}

/// A wallet that was registered is there, and no other wallet has gone.
pub proof fn law_a_registered_wallet_is_there(
    before: Seq<InactiveWallet>,
    after: Seq<InactiveWallet>,
    data_dir: Seq<char>,
    i: int,
)
    requires
        is_registered(before, after, data_dir),
    ensures
        has_wallet(after, crate::engine::data_path(data_dir)),
        0 <= i < before.len() ==> i < after.len() && after[i] == before[i],
{
    let path = crate::engine::data_path(data_dir);
    if !has_wallet(before, path) {
        assert(after[after.len() - 1].db_data_path@ == path);
        if 0 <= i < before.len() {
            assert(after.drop_last()[i] == after[i]);
        }
    }
}

/// To register a wallet once more changes nothing.
pub proof fn law_registering_twice_is_registering_once(
    before: Seq<InactiveWallet>,
    once: Seq<InactiveWallet>,
    twice: Seq<InactiveWallet>,
    data_dir: Seq<char>,
)
    requires
        is_registered(before, once, data_dir),
        is_registered(once, twice, data_dir),
    ensures
        twice == once,
{
    law_a_registered_wallet_is_there(before, once, data_dir, 0);
}

/// To unregister a wallet undoes its registration: what is left is what was
/// there without it.
pub proof fn law_unregistering_undoes_registering(
    before: Seq<InactiveWallet>,
    after: Seq<InactiveWallet>,
    data_dir: Seq<char>,
)
    requires
        is_registered(before, after, data_dir),
    ensures
        ({
            let path = crate::engine::data_path(data_dir);
            &&& without_wallet(after, path) == without_wallet(before, path)
            &&& !has_wallet(before, path) ==> without_wallet(after, path) == before
        }),
{
    let path = crate::engine::data_path(data_dir);
    let keep = |w: InactiveWallet| !crate::paths::same_path_spec(w.db_data_path@, path);
    reveal(Seq::filter);
    if !has_wallet(before, path) {
        assert(!keep(after.last()));
        assert(after.filter(keep) == after.drop_last().filter(keep));
        lemma_nothing_filtered(before, path);
    }
}

proof fn lemma_nothing_filtered(wallets: Seq<InactiveWallet>, path: Seq<char>)
    requires
        !has_wallet(wallets, path),
    ensures
        without_wallet(wallets, path) == wallets,
    decreases wallets.len(),
{
    reveal(Seq::filter);
    if wallets.len() > 0 {
        let init = wallets.drop_last();
        assert forall|i: int| 0 <= i < init.len() implies !crate::paths::same_path_spec(
            #[trigger] init[i].db_data_path@,
            path,
        ) by {
            assert(init[i].db_data_path@ == wallets[i].db_data_path@);
        }
        lemma_nothing_filtered(init, path);
        assert(!crate::paths::same_path_spec(wallets[wallets.len() - 1].db_data_path@, path));
        assert(init.push(wallets.last()) =~= wallets);
    } else {
        assert(without_wallet(wallets, path) =~= wallets);
    }
}

/// A wallet that was unregistered is not there, and every other wallet still is.
pub proof fn law_an_unregistered_wallet_is_gone(
    wallets: Seq<InactiveWallet>,
    data_dir: Seq<char>,
    i: int,
)
    ensures
        ({
            let path = crate::engine::data_path(data_dir);
            let left = without_wallet(wallets, path);
            &&& !has_wallet(left, path)
            &&& 0 <= i < wallets.len() && !crate::paths::same_path_spec(
                wallets[i].db_data_path@,
                path,
            ) ==> left.contains(wallets[i])
        }),
{
    let path = crate::engine::data_path(data_dir);
    lemma_filtered(wallets, path);
    let left = without_wallet(wallets, path);
    assert forall|k: int| 0 <= k < left.len() implies !crate::paths::same_path_spec(
        #[trigger] left[k].db_data_path@,
        path,
    ) by {
        assert(wallets.contains(left[k]));
    }
    if 0 <= i < wallets.len() {
        assert(wallets[i].db_data_path@ == wallets[i].db_data_path@);
    }
}

/// A data directory is the same wallet with and without a slash behind it.
pub proof fn law_a_slash_makes_no_other_wallet(data_dir: Seq<char>)
    requires
        data_dir.len() > 0,
        data_dir.last() != '/',
    ensures
        crate::engine::data_path(data_dir.push('/')) == crate::engine::data_path(data_dir),
        crate::engine::cache_path(data_dir.push('/')) == crate::engine::cache_path(data_dir),
{
}

/// A request to stop looks a hundred times before it gives up: it waits on as
/// long as every look, up to the hundredth, sees the synchronisation run, and
/// ends with the first that does not.
pub proof fn law_a_request_to_stop_is_patient(running: Seq<bool>)
    requires
        running.len() > 0,
        forall|i: int| 0 <= i < running.len() - 1 ==> #[trigger] running[i],
    ensures
        running.last() && running.len() <= 100 ==> looks(running) is Sleep,
        !running.last() ==> looks(running) == StopWait::Stopped,
        running.len() > 100 ==> looks(running) == StopWait::Stopped,
    decreases running.len(),
{
    lemma_looks(running);
    if running.len() > 1 {
        let init = running.drop_last();
        assert(init.last() == running[running.len() - 2]);
        assert forall|i: int| 0 <= i < init.len() - 1 implies #[trigger] init[i] by {
            assert(running[i]);
        }
        law_a_request_to_stop_is_patient(init);
        lemma_looks(init);
    }
}

/// As long as looks are left, a request to stop leaves alone whether the
/// synchronisation counts as running; with none left it does not.
pub proof fn law_only_the_last_look_forces(left: u32, running: bool)
    ensures
        left > 0 ==> still_running(StopWait::Sleep { left }, running) == running,
        !still_running(StopWait::Sleep { left: 0 }, running),
        still_running(StopWait::Stopped, running) == running,
        next_look(StopWait::Stopped, running) == StopWait::Stopped,
        left > 0 && running ==> next_look(StopWait::Sleep { left }, running) == (StopWait::Sleep {
            left: (left - 1) as u32,
        }),
        !running || left == 0 ==> next_look(StopWait::Sleep { left }, running)
            == StopWait::Stopped,
{
}

/// Wallets are taken off a list part by part: what is left of two lists is what
/// is left of the one, followed by what is left of the other. Of one wallet,
/// it is left unless its database is the one at the path.
pub proof fn law_wallets_are_taken_off_in_place(
    a: Seq<InactiveWallet>,
    b: Seq<InactiveWallet>,
    wallet: InactiveWallet,
    path: Seq<char>,
)
    ensures
        without_wallet(a + b, path) == without_wallet(a, path) + without_wallet(b, path),
        crate::paths::same_path_spec(wallet.db_data_path@, path) ==> without_wallet(
            seq![wallet],
            path,
        ).len() == 0,
        !crate::paths::same_path_spec(wallet.db_data_path@, path) ==> without_wallet(
            seq![wallet],
            path,
        ) == seq![wallet],
    decreases b.len(),
{
    reveal(Seq::filter);
    let keep = |w: InactiveWallet| !crate::paths::same_path_spec(w.db_data_path@, path);
    let one = seq![wallet];
    assert(one.drop_last() =~= Seq::<InactiveWallet>::empty());
    assert(one.drop_last().filter(keep) =~= Seq::<InactiveWallet>::empty());
    assert(one.filter(keep) =~= if keep(wallet) {
        one
    } else {
        Seq::empty()
    });
    if b.len() == 0 {
        assert(a + b =~= a);
        assert(without_wallet(a, path) + without_wallet(b, path) =~= without_wallet(a, path));
    } else {
        law_wallets_are_taken_off_in_place(a, b.drop_last(), wallet, path);
        assert((a + b).drop_last() =~= a + b.drop_last());
        assert((a + b).last() == b.last());
        assert(without_wallet(a + b, path) =~= without_wallet(a, path) + without_wallet(b, path));
    }
}

/// A wallet that is registered is added behind all others, once, under the paths
/// of its two databases, and only where no wallet with the same wallet database is
/// there.
pub proof fn law_a_new_wallet_comes_last(
    before: Seq<InactiveWallet>,
    after: Seq<InactiveWallet>,
    data_dir: Seq<char>,
)
    requires
        is_registered(before, after, data_dir),
    ensures
        ({
            let path = crate::engine::data_path(data_dir);
            let known = exists|i: int|
                0 <= i < before.len() && crate::paths::same_path_spec(
                    (#[trigger] before[i]).db_data_path@,
                    path,
                );
            &&& known ==> after == before
            &&& !known ==> {
                &&& after.len() == before.len() + 1
                &&& after.take(before.len() as int) == before
                &&& after[before.len() as int].db_data_path@ == path
                &&& after[before.len() as int].db_cache_path@ == crate::engine::cache_path(data_dir)
            }
        }),
{
    let path = crate::engine::data_path(data_dir);
    if exists|i: int|
        0 <= i < before.len() && crate::paths::same_path_spec(
            (#[trigger] before[i]).db_data_path@,
            path,
        ) {
        let i = choose|i: int|
            0 <= i < before.len() && crate::paths::same_path_spec(
                (#[trigger] before[i]).db_data_path@,
                path,
            );
        assert(crate::paths::same_path_spec(before[i].db_data_path@, path));
        assert(has_wallet(before, path));
    } else {
        assert(!has_wallet(before, path)) by {
            if has_wallet(before, path) {
                let i = choose|i: int|
                    0 <= i < before.len() && crate::paths::same_path_spec(
                        #[trigger] before[i].db_data_path@,
                        path,
                    );
                assert(before[i] == before[i]);
            }
        }
        assert(after.take(before.len() as int) =~= after.drop_last());
    }
}

/// The job of an engine is that engine's: its databases, its network, its server
/// and its key. Nothing is known of a synchronisation that has not run.
pub proof fn law_a_job_is_that_of_the_engine(engine: ZipherEngine)
    ensures
        job_of(engine).db_data_path == engine.db_data_path,
        job_of(engine).db_cache_path == engine.db_cache_path,
        job_of(engine).params == engine.params,
        job_of(engine).server_url == engine.server_url,
        job_of(engine).db_cipher_key == engine.db_cipher_key,
        idle_progress().synced_height == 0,
        idle_progress().latest_height == 0,
        idle_progress().scanning_up_to == 0,
        !idle_progress().is_syncing,
        idle_progress().connection_error is None,
{
}

/// A synchronisation starts exactly where none runs and there is an engine. It
/// then runs, with no request to stop and nothing known, and no other can be
/// started before it has finished. A refused start changes nothing.
pub proof fn law_one_synchronisation_at_a_time(
    sync: SyncControl,
    engine: ZipherEngine,
    other: Option<ZipherEngine>,
)
    ensures
        sync.running ==> start_answer(sync, other) == Err::<SyncJob, StartError>(
            StartError::AlreadyRunning,
        ),
        !sync.running ==> start_answer(sync, None) == Err::<SyncJob, StartError>(
            StartError::NotInitialized,
        ),
        !sync.running ==> start_answer(sync, Some(engine)) == Ok::<SyncJob, StartError>(
            job_of(engine),
        ),
        sync.running ==> after_start(sync, other) == sync,
        after_start(sync, None) == sync,
        !sync.running ==> ({
            let q = after_start(sync, Some(engine));
            &&& q.running
            &&& !q.cancel
            &&& q.progress.is_syncing
            &&& q.progress.synced_height == 0
            &&& q.progress.latest_height == 0
            &&& q.progress.scanning_up_to == 0
            &&& q.progress.connection_error is None
            &&& q.inactive == sync.inactive
            &&& start_answer(q, other) is Err
        }),
{
}

/// A synchronisation that has finished no longer runs, and another can be
/// started. What is known of the progress stays known, and so does a request to
/// stop.
pub proof fn law_a_finished_synchronisation_can_be_started_again(
    sync: SyncControl,
    engine: ZipherEngine,
)
    ensures
        ({
            let q = after_finish(sync);
            &&& !q.running
            &&& !q.progress.is_syncing
            &&& q.cancel == sync.cancel
            &&& q.inactive == sync.inactive
            &&& q.progress.synced_height == sync.progress.synced_height
            &&& q.progress.latest_height == sync.progress.latest_height
            &&& q.progress.scanning_up_to == sync.progress.scanning_up_to
            &&& q.progress.connection_error == sync.progress.connection_error
            &&& start_answer(q, Some(engine)) is Ok
        }),
{
}

/// A request to stop is there for all to see until the next start, and changes
/// nothing else.
pub proof fn law_a_request_to_stop_lasts_until_the_next_start(
    sync: SyncControl,
    engine: ZipherEngine,
)
    ensures
        after_stop(sync).cancel,
        after_finish(after_stop(sync)).cancel,
        after_stop(sync).running == sync.running,
        after_stop(sync).progress == sync.progress,
        after_stop(sync).inactive == sync.inactive,
        !after_start(after_finish(after_stop(sync)), Some(engine)).cancel,
{
}

} // verus!
