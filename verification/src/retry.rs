//! The synchronisation as a whole: pass after pass until it is asked to stop,
//! with a growing wait after each failure.
use vstd::prelude::*;

use crate::pass::{sync_error_text, SyncError};
use crate::sync::{SyncControl, SyncProgressInfo};
use crate::text::contains;

verus! {

/// The wait after a first failure, in milliseconds.
pub const MIN_BACKOFF_MS: u64 = 5_000;

/// The longest wait after a failure, in milliseconds.
pub const MAX_BACKOFF_MS: u64 = 60_000;

/// The wait after a pass that succeeded, in seconds.
pub const IDLE_SECS: u32 = 30;

/// What the synchronisation waits for.
#[derive(Debug)]
pub enum RetryStage {
    /// Run a pass; the subtree roots are brought up to date if `first_pass`.
    RunPass,
    /// Wait a second after a pass that succeeded, and `left` more behind it.
    Idle { left: u32 },
    /// Wait a second after a pass that failed, and `left` more behind it.
    BackOff { left: u64 },
    /// Finished.
    Done(Result<(), SyncError>),
}

/// The synchronisation as a whole.
#[derive(Debug)]
pub struct SyncRetry {
    /// The wait after the next failure, in milliseconds.
    pub backoff_ms: u64,
    /// No pass has succeeded yet.
    pub first_pass: bool,
    pub stage: RetryStage,
}

/// What came of the step that the synchronisation waited for.
#[derive(Debug)]
pub enum RetryEvent {
    PassSucceeded,
    /// The pass failed, in these words.
    PassFailed(String),
    /// A second has passed.
    Slept,
}

/// A failure in these words is a cancellation.
pub open spec fn is_cancellation(text: Seq<char>) -> bool {
    crate::text::occurs(text, "Sync cancelled"@)
}

/// Before a pass: a cancelled synchronisation goes no further.
pub open spec fn before_pass(r: SyncRetry, cancel: bool) -> SyncRetry {
    SyncRetry {
        stage: if cancel {
            RetryStage::Done(Err(SyncError::Cancelled))
        } else {
            RetryStage::RunPass
        },
        ..r
    }
}

/// Twice the wait, up to the longest.
pub open spec fn doubled(backoff_ms: u64) -> u64 {
    if backoff_ms * 2 < MAX_BACKOFF_MS {
        (backoff_ms * 2) as u64
    } else {
        MAX_BACKOFF_MS
    }
}

/// Before one more second of the wait after a success. One that is cancelled
/// here ends well.
pub open spec fn before_idle(r: SyncRetry, cancel: bool, left: u32) -> SyncRetry {
    SyncRetry {
        stage: if cancel {
            RetryStage::Done(Ok(()))
        } else {
            RetryStage::Idle { left }
        },
        ..r
    }
}

/// Before one more second of the wait after a failure.
pub open spec fn before_backoff(r: SyncRetry, cancel: bool, left: u64) -> SyncRetry {
    SyncRetry {
        stage: if cancel {
            RetryStage::Done(Err(SyncError::Cancelled))
        } else {
            RetryStage::BackOff { left }
        },
        ..r
    }
}

/// The synchronisation after `event`, where `cancel` says whether it was asked
/// to stop. An event that the stage does not wait for changes nothing.
pub open spec fn retry_next(r: SyncRetry, cancel: bool, event: RetryEvent) -> SyncRetry {
    match (r.stage, event) {
        (RetryStage::RunPass, RetryEvent::PassSucceeded) => before_idle(
            SyncRetry { first_pass: false, ..r },
            cancel,
            (IDLE_SECS - 1) as u32,
        ),
        (RetryStage::RunPass, RetryEvent::PassFailed(text)) => if is_cancellation(text@) {
            SyncRetry { stage: RetryStage::Done(Err(SyncError::Plain(text))), ..r }
        } else {
            if r.backoff_ms < 1000 {
                before_pass(SyncRetry { backoff_ms: doubled(r.backoff_ms), ..r }, cancel)
            } else {
                before_backoff(r, cancel, (r.backoff_ms as int / 1000 - 1) as u64)
            }
        },
        (RetryStage::Idle { left }, RetryEvent::Slept) => if left == 0 {
            before_pass(SyncRetry { backoff_ms: MIN_BACKOFF_MS, ..r }, cancel)
        } else {
            before_idle(r, cancel, (left - 1) as u32)
        },
        (RetryStage::BackOff { left }, RetryEvent::Slept) => if left == 0 {
            before_pass(SyncRetry { backoff_ms: doubled(r.backoff_ms), ..r }, cancel)
        } else {
            before_backoff(r, cancel, (left - 1) as u64)
        },
        _ => r,
    }
}

/// The progress after `event`: a success clears the last error, and a failure
/// that is not a cancellation is noted.
pub open spec fn retry_progress(
    r: SyncRetry,
    progress: SyncProgressInfo,
    event: RetryEvent,
) -> SyncProgressInfo {
    match (r.stage, event) {
        (RetryStage::RunPass, RetryEvent::PassSucceeded) => SyncProgressInfo {
            connection_error: None,
            ..progress
        },
        (RetryStage::RunPass, RetryEvent::PassFailed(text)) => if is_cancellation(text@) {
            progress
        } else {
            SyncProgressInfo { connection_error: Some(text), ..progress }
        },
        _ => progress,
    }
}

fn twice(backoff_ms: u64) -> (r: u64)
    ensures
        r == doubled(backoff_ms),
{
    if backoff_ms < MAX_BACKOFF_MS && backoff_ms * 2 < MAX_BACKOFF_MS {
        backoff_ms * 2
    } else {
        MAX_BACKOFF_MS
    }
}

impl SyncRetry {
    /// What holds of every synchronisation that `sync_loop_with_retry` started.
    pub open spec fn wf(&self) -> bool {
        &&& MIN_BACKOFF_MS <= self.backoff_ms <= MAX_BACKOFF_MS
        &&& match self.stage {
            RetryStage::Idle { left } => left < IDLE_SECS,
            RetryStage::BackOff { left } => left < self.backoff_ms / 1000,
            _ => true,
        }
    }

    fn pass(self, cancel: bool) -> (r: SyncRetry)
        ensures
            r == before_pass(self, cancel),
    {
        let stage = if cancel {
            RetryStage::Done(Err(SyncError::Cancelled))
        } else {
            RetryStage::RunPass
        };
        SyncRetry { stage, ..self }
    }

    fn idle(self, cancel: bool, left: u32) -> (r: SyncRetry)
        ensures
            r == before_idle(self, cancel, left),
    {
        let stage = if cancel {
            RetryStage::Done(Ok(()))
        } else {
            RetryStage::Idle { left }
        };
        SyncRetry { stage, ..self }
    }

    fn back_off(self, cancel: bool, left: u64) -> (r: SyncRetry)
        ensures
            r == before_backoff(self, cancel, left),
    {
        let stage = if cancel {
            RetryStage::Done(Err(SyncError::Cancelled))
        } else {
            RetryStage::BackOff { left }
        };
        SyncRetry { stage, ..self }
    }

    /// Goes on with what came of the step that the synchronisation waited for.
    pub fn step(self, sync: &mut SyncControl, event: RetryEvent) -> (r: SyncRetry)
        ensures
            r == retry_next(self, old(sync).cancel, event),
            self.wf() ==> r.wf(),
            *final(sync) == (SyncControl {
                progress: retry_progress(self, old(sync).progress, event),
                ..*old(sync)
            }),
    {
        let cancel = sync.cancel;
        let SyncRetry { backoff_ms, first_pass, stage } = self;
        match (stage, event) {
            (RetryStage::RunPass, RetryEvent::PassSucceeded) => {
                sync.progress.connection_error = None;
                let r = SyncRetry { backoff_ms, first_pass: false, stage: RetryStage::RunPass };
                r.idle(cancel, IDLE_SECS - 1)
            },
            (RetryStage::RunPass, RetryEvent::PassFailed(text)) => {
                if contains(text.as_str(), "Sync cancelled") {
                    SyncRetry {
                        backoff_ms,
                        first_pass,
                        stage: RetryStage::Done(Err(SyncError::Plain(text))),
                    }
                } else {
                    sync.progress.connection_error = Some(text);
                    let r = SyncRetry { backoff_ms, first_pass, stage: RetryStage::RunPass };
                    if backoff_ms < 1000 {
                        let r = SyncRetry { backoff_ms: twice(backoff_ms), ..r };
                        r.pass(cancel)
                    } else {
                        r.back_off(cancel, backoff_ms / 1000 - 1)
                    }
                }
            },
            (RetryStage::Idle { left }, RetryEvent::Slept) => {
                if left == 0 {
                    let r = SyncRetry {
                        backoff_ms: MIN_BACKOFF_MS,
                        first_pass,
                        stage: RetryStage::RunPass,
                    };
                    r.pass(cancel)
                } else {
                    let r = SyncRetry { backoff_ms, first_pass, stage: RetryStage::RunPass };
                    r.idle(cancel, left - 1)
                }
            },
            (RetryStage::BackOff { left }, RetryEvent::Slept) => {
                if left == 0 {
                    let backoff_ms: u64 = twice(backoff_ms);
                    let r = SyncRetry { backoff_ms, first_pass, stage: RetryStage::RunPass };
                    r.pass(cancel)
                } else {
                    let r = SyncRetry { backoff_ms, first_pass, stage: RetryStage::RunPass };
                    r.back_off(cancel, left - 1)
                }
            },
            (stage, _) => SyncRetry { backoff_ms, first_pass, stage },
        }
    }
}

/// The synchronisation at its start, where `cancel` says whether it was asked to
/// stop before it began.
pub open spec fn first_retry(cancel: bool) -> SyncRetry {
    before_pass(
        SyncRetry {
            backoff_ms: MIN_BACKOFF_MS,
            first_pass: true,
            stage: RetryStage::RunPass,
        },
        cancel,
    )
}

/// Starts the synchronisation, unless it was asked to stop before it began.
pub fn sync_loop_with_retry(sync: &SyncControl) -> (r: SyncRetry)
    ensures
        r.wf(),
        r == first_retry(sync.cancel),
{
    let r = SyncRetry {
        backoff_ms: MIN_BACKOFF_MS,
        first_pass: true,
        stage: RetryStage::RunPass,
    };
    r.pass(sync.cancel)
}

// ---------------------------------------------------------------------------
// Laws
// ---------------------------------------------------------------------------

/// The wait after `n` failures in a row, in milliseconds: it starts at the
/// shortest, doubles with each failure, and stays at the longest once there.
pub open spec fn backoff_after(n: nat) -> u64
    decreases n,
{
    if n == 0 {
        MIN_BACKOFF_MS
    } else {
        doubled(backoff_after((n - 1) as nat))
    }
}

/// `n` seconds go by without a request to stop.
pub open spec fn after_seconds(r: SyncRetry, n: nat) -> SyncRetry
    decreases n,
{
    if n == 0 {
        r
    } else {
        retry_next(after_seconds(r, (n - 1) as nat), false, RetryEvent::Slept)
    }
}

/// The waits after failures in a row are 5, 10, 20, 40 and then always 60
/// seconds.
pub proof fn law_the_wait_grows_to_a_minute(n: nat)
    ensures
        backoff_after(0) == 5_000,
        backoff_after(1) == 10_000,
        backoff_after(2) == 20_000,
        backoff_after(3) == 40_000,
        n >= 4 ==> backoff_after(n) == 60_000,
    decreases n,
{
    reveal_with_fuel(backoff_after, 6);
    if n > 4 {
        law_the_wait_grows_to_a_minute((n - 1) as nat);
    }
}

/// Part of a wait: `n` seconds of the wait after a failure leave the wait
/// shorter by so much.
proof fn lemma_part_of_backoff(r: SyncRetry, left: u64, n: nat)
    requires
        r.stage == (RetryStage::BackOff { left }),
        n <= left,
    ensures
        after_seconds(r, n) == (SyncRetry {
            stage: RetryStage::BackOff { left: (left - n) as u64 },
            ..r
        }),
    decreases n,
{
    if n > 0 {
        lemma_part_of_backoff(r, left, (n - 1) as nat);
    }
}

proof fn lemma_part_of_idle(r: SyncRetry, left: u32, n: nat)
    requires
        r.stage == (RetryStage::Idle { left }),
        n <= left,
    ensures
        after_seconds(r, n) == (SyncRetry {
            stage: RetryStage::Idle { left: (left - n) as u32 },
            ..r
        }),
    decreases n,
{
    if n > 0 {
        lemma_part_of_idle(r, left, (n - 1) as nat);
    }
}

/// After the `n`-th failure in a row the synchronisation waits as many seconds
/// as `backoff_after` says, no more and no fewer, and then runs a pass again,
/// ready to wait longer the next time.
pub proof fn law_wait_after_a_failure(r: SyncRetry, n: nat, text: String, seconds: nat)
    requires
        r.stage is RunPass,
        r.backoff_ms == backoff_after(n),
        !is_cancellation(text@),
        seconds <= backoff_after(n) / 1000,
    ensures
        ({
            let failed = retry_next(r, false, RetryEvent::PassFailed(text));
            let later = after_seconds(failed, seconds);
            if seconds < backoff_after(n) / 1000 {
                later.stage is BackOff
            } else {
                later == (SyncRetry { backoff_ms: backoff_after(n + 1), ..r })
            }
        }),
{
    lemma_backoff_bounds(n);
    let failed = retry_next(r, false, RetryEvent::PassFailed(text));
    let left = (backoff_after(n) as int / 1000 - 1) as u64;
    if seconds < backoff_after(n) / 1000 {
        lemma_part_of_backoff(failed, left, seconds);
    } else {
        lemma_part_of_backoff(failed, left, left as nat);
        assert(seconds - 1 == left);
    }
}

proof fn lemma_backoff_bounds(n: nat)
    ensures
        MIN_BACKOFF_MS <= backoff_after(n) <= MAX_BACKOFF_MS,
    decreases n,
{
    if n > 0 {
        lemma_backoff_bounds((n - 1) as nat);
    }
}

/// After a success the synchronisation waits half a minute and then runs a pass
/// that leaves the subtree roots alone, with the shortest wait ahead.
pub proof fn law_wait_after_a_success(r: SyncRetry, seconds: nat)
    requires
        r.stage is RunPass,
        seconds <= IDLE_SECS,
    ensures
        ({
            let done = retry_next(r, false, RetryEvent::PassSucceeded);
            let later = after_seconds(done, seconds);
            if seconds < IDLE_SECS {
                later.stage is Idle
            } else {
                later == (SyncRetry {
                    backoff_ms: MIN_BACKOFF_MS,
                    first_pass: false,
                    stage: RetryStage::RunPass,
                })
            }
        }),
{
    let done = retry_next(r, false, RetryEvent::PassSucceeded);
    let left = (IDLE_SECS - 1) as u32;
    if seconds < IDLE_SECS {
        lemma_part_of_idle(done, left, seconds);
    } else {
        lemma_part_of_idle(done, left, left as nat);
        assert(seconds - 1 == left);
    }
}

/// The subtree roots are brought up to date by every pass until one succeeds,
/// and by none after that.
pub proof fn law_roots_until_the_first_success(r: SyncRetry, cancel: bool, event: RetryEvent)
    ensures
        retry_next(r, cancel, event).first_pass == (r.first_pass && !(r.stage is RunPass
            && event is PassSucceeded)),
{
}

/// A cancelled pass ends the synchronisation: its failure is taken for what it
/// is, and not noted as an error of the connection.
pub proof fn law_a_cancelled_pass_ends_the_synchronisation(
    r: SyncRetry,
    cancel: bool,
    progress: SyncProgressInfo,
    text: String,
)
    requires
        r.stage is RunPass,
        text@ == sync_error_text(SyncError::Cancelled),
    ensures
        retry_next(r, cancel, RetryEvent::PassFailed(text)).stage is Done,
        retry_progress(r, progress, RetryEvent::PassFailed(text)) == progress,
{
    assert(text@.subrange(0, text@.len() as int) =~= text@);
    assert(crate::text::occurs_at(text@, "Sync cancelled"@, 0));
}

/// Asked to stop, the synchronisation starts no further pass and no further
/// second of waiting.
pub proof fn law_a_cancelled_synchronisation_starts_nothing(r: SyncRetry, event: RetryEvent)
    ensures
        ({
            let q = retry_next(r, true, event);
            q.stage is Done || q == r
        }),
{
}

/// A synchronisation that ended stays as it is.
pub proof fn law_an_ended_synchronisation_rests(r: SyncRetry, cancel: bool, event: RetryEvent)
    requires
        r.stage is Done,
    ensures
        retry_next(r, cancel, event) == r,
{
}

/// The words tell of a cancellation, wherever in them.
pub open spec fn tells_of_cancellation(text: Seq<char>) -> bool {
    exists|head: Seq<char>, tail: Seq<char>| text == #[trigger] (head + "Sync cancelled"@ + tail)
}

proof fn lemma_tells_of_cancellation(text: Seq<char>)
    ensures
        is_cancellation(text) <==> tells_of_cancellation(text),
{
    if is_cancellation(text) {
        crate::text::law_what_occurs_can_be_cut_out(text, "Sync cancelled"@);
    }
    if tells_of_cancellation(text) {
        let (head, tail) = choose|head: Seq<char>, tail: Seq<char>|
            text == #[trigger] (head + "Sync cancelled"@ + tail);
        crate::text::law_a_text_occurs_where_it_stands(head, "Sync cancelled"@, tail);
    }
}

/// A pass that failed is run again unless its words tell of a cancellation: then
/// the synchronisation ends in these words, and they are not noted. Any other
/// words are noted as what is wrong with the connection, and the wait begins
/// unless there was a request to stop.
pub proof fn law_a_failed_pass_is_run_again(
    r: SyncRetry,
    cancel: bool,
    progress: SyncProgressInfo,
    text: String,
)
    requires
        r.backoff_ms >= 1000,
        r.stage is RunPass,
    ensures
        ({
            let q = retry_next(r, cancel, RetryEvent::PassFailed(text));
            let noted = retry_progress(r, progress, RetryEvent::PassFailed(text));
            &&& q.backoff_ms == r.backoff_ms
            &&& q.first_pass == r.first_pass
            &&& tells_of_cancellation(text@) ==> {
                &&& q.stage == RetryStage::Done(Err(SyncError::Plain(text)))
                &&& noted == progress
            }
            &&& !tells_of_cancellation(text@) ==> {
                &&& noted.connection_error == Some(text)
                &&& noted.synced_height == progress.synced_height
                &&& noted.latest_height == progress.latest_height
                &&& noted.is_syncing == progress.is_syncing
                &&& noted.scanning_up_to == progress.scanning_up_to
                &&& cancel ==> q.stage == RetryStage::Done(Err(SyncError::Cancelled))
                &&& !cancel ==> q.stage is BackOff
            }
        }),
{
    lemma_tells_of_cancellation(text@);
}

/// A pass that succeeded clears what was wrong with the connection, and nothing
/// else of the progress. A wait changes nothing of it.
pub proof fn law_a_success_clears_the_error(r: SyncRetry, progress: SyncProgressInfo)
    ensures
        ({
            let noted = retry_progress(r, progress, RetryEvent::PassSucceeded);
            &&& r.stage is RunPass ==> noted.connection_error is None
            &&& !(r.stage is RunPass) ==> noted == progress
            &&& noted.synced_height == progress.synced_height
            &&& noted.latest_height == progress.latest_height
            &&& noted.is_syncing == progress.is_syncing
            &&& noted.scanning_up_to == progress.scanning_up_to
            &&& retry_progress(r, progress, RetryEvent::Slept) == progress
        }),
{
}

/// A wait after a success lasts 30 seconds, and one after a failure as many as
/// its milliseconds come to. After the first the shortest wait of 5 seconds is
/// ahead again, after the second one that is twice as long, up to a minute.
pub proof fn law_how_long_is_waited(r: SyncRetry, text: String, seconds: nat)
    requires
        r.backoff_ms >= 1000,
        r.stage is RunPass,
        !tells_of_cancellation(text@),
    ensures
        ({
            let done = retry_next(r, false, RetryEvent::PassSucceeded);
            let failed = retry_next(r, false, RetryEvent::PassFailed(text));
            &&& seconds < 30 ==> after_seconds(done, seconds).stage is Idle
            &&& seconds == 30 ==> {
                &&& after_seconds(done, seconds).stage is RunPass
                &&& after_seconds(done, seconds).backoff_ms == 5_000
                &&& !after_seconds(done, seconds).first_pass
            }
            &&& seconds * 1000 + 1000 <= r.backoff_ms ==> after_seconds(
                failed,
                seconds,
            ).stage is BackOff
            &&& seconds * 1000 <= r.backoff_ms < seconds * 1000 + 1000 ==> {
                let later = after_seconds(failed, seconds);
                &&& later.stage is RunPass
                &&& later.first_pass == r.first_pass
                &&& 2 * r.backoff_ms <= 60_000 ==> later.backoff_ms == 2 * r.backoff_ms
                &&& 2 * r.backoff_ms > 60_000 ==> later.backoff_ms == 60_000
            }
        }),
{
    lemma_tells_of_cancellation(text@);
    let done = retry_next(r, false, RetryEvent::PassSucceeded);
    let failed = retry_next(r, false, RetryEvent::PassFailed(text));
    if seconds < 30 {
        lemma_part_of_idle(done, 29, seconds);
    } else if seconds == 30 {
        lemma_part_of_idle(done, 29, 29);
        assert((seconds - 1) as nat == 29);
    }
    let left = (r.backoff_ms as int / 1000 - 1) as u64;
    if seconds * 1000 + 1000 <= r.backoff_ms {
        lemma_part_of_backoff(failed, left, seconds);
    } else if seconds * 1000 <= r.backoff_ms {
        assert(left == seconds - 1);
        lemma_part_of_backoff(failed, left, left as nat);
        assert((seconds - 1) as nat == left);
    }
}

/// How a synchronisation that was asked to stop ends: well where a pass has just
/// succeeded or part of the wait after it is left, and as cancelled where a pass
/// would be next or a failure came before.
pub proof fn law_how_a_request_to_stop_ends_it(r: SyncRetry, left: u32, rest: u64)
    ensures
        r.stage is RunPass ==> retry_next(r, true, RetryEvent::PassSucceeded).stage
            == RetryStage::Done(Ok(())),
        r.stage == (RetryStage::Idle { left }) ==> retry_next(r, true, RetryEvent::Slept).stage
            == if left > 0 {
            RetryStage::Done(Ok(()))
        } else {
            RetryStage::Done(Err(SyncError::Cancelled))
        },
        r.stage == (RetryStage::BackOff { left: rest }) ==> retry_next(
            r,
            true,
            RetryEvent::Slept,
        ).stage == RetryStage::Done(Err(SyncError::Cancelled)),
{
}

/// What the synchronisation does not wait for changes nothing: a second that
/// passed counts only in a wait, and a pass only where one was run.
pub proof fn law_only_what_is_waited_for_counts(r: SyncRetry, cancel: bool, text: String)
    ensures
        r.stage is RunPass ==> retry_next(r, cancel, RetryEvent::Slept) == r,
        !(r.stage is RunPass) ==> retry_next(r, cancel, RetryEvent::PassSucceeded) == r,
        !(r.stage is RunPass) ==> retry_next(r, cancel, RetryEvent::PassFailed(text)) == r,
{
}

/// A wait of less than a second is none: the pass is run again at once, with
/// twice the wait ahead.
pub proof fn law_a_short_wait_is_none(r: SyncRetry, text: String)
    requires
        r.stage is RunPass,
        r.backoff_ms < 1000,
        !tells_of_cancellation(text@),
    ensures
        ({
            let q = retry_next(r, false, RetryEvent::PassFailed(text));
            &&& q.stage is RunPass
            &&& q.backoff_ms == 2 * r.backoff_ms
        }),
{
    lemma_tells_of_cancellation(text@);
}

/// A synchronisation starts with a pass that brings the roots up to date, and the
/// shortest wait of 5 seconds ahead. One that was asked to stop before it began
/// starts none.
pub proof fn law_a_synchronisation_starts_with_a_pass()
    ensures
        first_retry(false).stage == RetryStage::RunPass,
        first_retry(true).stage == RetryStage::Done(Err(SyncError::Cancelled)),
        first_retry(false).first_pass && first_retry(true).first_pass,
        first_retry(false).backoff_ms == 5_000 && first_retry(true).backoff_ms == 5_000,
{
}

} // verus!
