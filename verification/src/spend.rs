//! Sending money, the second step: a transaction is created, fetched from the
//! wallet and broadcast. A confirmed proposal, a payment made in one step,
//! shielding and a proposal signed by a device all go this way.
use vstd::prelude::*;

use crate::engine::ZipherEngine;
use crate::external::{phrase_fault, phrase_seed, spending_key, wipe_bytes, Receiver};
use crate::failure::{failure_text, Failure};
use crate::keys::{key_from_phrase, phrase_key_is};
use crate::paths::{is_file_name, join, join_spec, parent, parent_spec};
use crate::send::{
    after_take, payment_plans_are, plan_payment, take_pending_proposal, PendingSend, SendPlan,
};

verus! {

// ---------------------------------------------------------------------------
// The proving parameters
// ---------------------------------------------------------------------------

/// The directory above a path, where there is one, and the empty path where
/// there is none.
pub open spec fn above(path: Seq<char>) -> Seq<char> {
    match parent_spec(path) {
        Some(p) => p,
        None => Seq::empty(),
    }
}

/// The directories in which the proving parameters are looked for: the one of
/// the wallet, then the one above it.
pub open spec fn are_param_dirs(dirs: Option<Vec<String>>, data_path: Seq<char>) -> bool {
    match (dirs, parent_spec(data_path)) {
        (Some(d), Some(wallet_dir)) => {
            &&& d@.len() == 2
            &&& d@[0]@ == wallet_dir
            &&& d@[1]@ == above(wallet_dir)
        },
        (None, None) => true,
        _ => false,
    }
}

/// The directories in which the proving parameters are looked for, in order;
/// none where the data path has no directory.
pub fn load_prover_from_path(data_path: &str) -> (r: Option<Vec<String>>)
    ensures
        are_param_dirs(r, data_path@),
{
    match parent(data_path) {
        None => None,
        Some(wallet_dir) => {
            let upper = match parent(wallet_dir.as_str()) {
                Some(dir) => dir,
                None => String::new(),
            };
            let mut dirs: Vec<String> = Vec::new();
            dirs.push(wallet_dir);
            dirs.push(upper);
            Some(dirs)
        },
    }
}

/// The two paths are those of the parameters for spending and for outputs in a
/// directory.
pub open spec fn are_param_files(files: (String, String), dir: Seq<char>) -> bool {
    &&& files.0@ == join_spec(dir, "sapling-spend.params"@)
    &&& files.1@ == join_spec(dir, "sapling-output.params"@)
}

/// The files of the proving parameters in a directory: for spending, and for
/// outputs.
pub fn param_files(dir: &str) -> (r: (String, String))
    ensures
        are_param_files(r, dir@),
{
    proof {
        reveal_strlit("sapling-spend.params");
        reveal_strlit("sapling-output.params");
    }
    (join(dir, "sapling-spend.params"), join(dir, "sapling-output.params"))
}

/// Which of the two files a directory holds.
#[derive(Clone, Copy, Debug, PartialEq, Eq, Structural)]
pub struct Probe {
    pub spend: bool,
    pub output: bool,
}

/// Both files are there.
pub open spec fn is_complete(p: Probe) -> bool {
    p.spend && p.output
}

/// The first of the directories that holds both files.
pub open spec fn first_complete(dirs: Seq<String>, probes: Seq<Probe>, i: int) -> bool {
    &&& 0 <= i < dirs.len()
    &&& i < probes.len()
    &&& is_complete(probes[i])
    &&& forall|j: int| 0 <= j < i ==> !is_complete(#[trigger] probes[j])
}

/// None of the directories holds both files.
pub open spec fn none_complete(dirs: Seq<String>, probes: Seq<Probe>) -> bool {
    forall|j: int| 0 <= j < dirs.len() && j < probes.len() ==> !is_complete(#[trigger] probes[j])
}

/// What follows the search: the transaction is created with the parameters of
/// the first directory that holds both files.
pub open spec fn searched(dirs: Vec<String>, probes: Seq<Probe>) -> SpendStage {
    if none_complete(dirs@, probes) {
        SpendStage::Done(Err(Failure::ParamsNotFound(dirs)))
    } else {
        SpendStage::Create(dirs@[choose|i: int| first_complete(dirs@, probes, i)])
    }
}

fn choose_dir(dirs: Vec<String>, probes: &Vec<Probe>) -> (r: SpendStage)
    ensures
        r == searched(dirs, probes@),
{
    let mut at: usize = 0;
    while at < dirs.len() && at < probes.len() && !(probes[at].spend && probes[at].output)
        invariant
            at <= dirs.len(),
            at <= probes.len(),
            forall|j: int| 0 <= j < at ==> !is_complete(#[trigger] probes@[j]),
        decreases dirs.len() - at,
    {
        at = at + 1;
    }
    if at < dirs.len() && at < probes.len() {
        proof {
            assert(is_complete(probes@[at as int]));
            assert(first_complete(dirs@, probes@, at as int));
            let i = choose|i: int| first_complete(dirs@, probes@, i);
            assert(i == at);
        }
        SpendStage::Create(dirs[at].clone())
    } else {
        SpendStage::Done(Err(Failure::ParamsNotFound(dirs)))
    }
}

// ---------------------------------------------------------------------------
// The way of a transaction
// ---------------------------------------------------------------------------

/// What a transaction is created from.
#[derive(Clone, Copy, Debug, PartialEq, Eq, Structural)]
pub enum Route {
    /// The proposal that was confirmed.
    Confirm,
    /// A payment that is proposed and created in one step.
    Payment,
    /// The transparent money of the wallet, which is moved to its shielded pool.
    Shield,
    /// The proposal that was confirmed, signed by a hardware device.
    Device,
}

/// What is to be done next.
#[derive(Debug)]
pub enum SpendStage {
    /// Open the wallet database.
    OpenWallet,
    /// List the accounts of the wallet; the first one is spent from.
    ListAccounts,
    /// List the transparent receivers of the account.
    ListReceivers,
    /// Look for the proving parameters in these directories.
    FindParams(Vec<String>),
    /// Create the transaction with the proving parameters of this directory.
    Create(String),
    /// Create an unsigned transaction from the proposal.
    CreateUnsigned,
    /// Have the device sign it.
    Sign,
    /// Extract the transaction from what was signed, and store it.
    Extract,
    /// Fetch the transaction from the wallet, in its encoded form.
    Fetch { txid: String },
    /// Connect to the server.
    Connect { txid: String, data: Vec<u8> },
    /// Send the encoded transaction to the server, as one of this height; 0 is
    /// that of a transaction in no block.
    Broadcast { txid: String, data: Vec<u8>, height: u64 },
    /// Finished: the id of the transaction.
    Done(Result<String, Failure>),
}

/// A transaction on its way. There is no text form of it, for it may hold a key.
pub struct Spend {
    pub route: Route,
    /// The encoded spending key, where the wallet signs; it is wiped as soon as
    /// the transaction is created, or has failed.
    pub key: Option<Vec<u8>>,
    /// What is paid, on the way of a payment.
    pub plans: Vec<SendPlan>,
    /// The receivers whose money is shielded, on the way of shielding.
    pub receivers: Vec<Receiver>,
    /// The server that the transaction is sent to.
    pub server: String,
    /// Why the payment cannot be made.
    pub fault: Option<Failure>,
    /// Where the proving parameters may be.
    pub dirs: Option<Vec<String>>,
    pub stage: SpendStage,
}

/// What came of the step that a transaction waited for.
#[derive(Debug)]
pub enum SpendEvent {
    /// The step was carried out.
    Finished,
    /// How many accounts there are.
    Count(usize),
    /// The transparent receivers of the account.
    Receivers(Vec<Receiver>),
    /// What the directories hold, in order.
    Probed(Vec<Probe>),
    /// No proposal could be made of what is to be created.
    NotProposed(String),
    /// The transaction was created and has this id.
    Created(String),
    /// What the device signed cannot be read.
    Unreadable(Failure),
    /// The encoded transaction.
    Found(Vec<u8>),
    /// The wallet does not have the transaction.
    Missing,
    /// The transaction cannot be encoded.
    NotEncoded(String),
    /// The answer of the server.
    Reply { code: i32, message: String },
    /// The step failed.
    Failed(String),
}

/// The parameters are looked for where there is a directory to look in.
pub open spec fn to_params(s: Spend) -> Spend {
    match s.dirs {
        None => Spend { stage: SpendStage::Done(Err(Failure::NoDataDirectory)), ..s },
        Some(dirs) => Spend { dirs: None, stage: SpendStage::FindParams(dirs), ..s },
    }
}

/// What follows once there is an account.
pub open spec fn with_account(s: Spend) -> Spend {
    match s.fault {
        Some(f) => Spend { fault: None, stage: SpendStage::Done(Err(f)), ..s },
        None => match s.route {
            Route::Confirm | Route::Payment => to_params(s),
            Route::Shield => Spend { stage: SpendStage::ListReceivers, ..s },
            Route::Device => Spend { stage: SpendStage::CreateUnsigned, ..s },
        },
    }
}

/// The failure of a step that is reported in the words `text`.
pub open spec fn step_failure(route: Route, stage: SpendStage, text: String) -> Failure {
    match stage {
        SpendStage::ListAccounts => match route {
            Route::Payment | Route::Shield => Failure::AccountIds(text),
            Route::Confirm | Route::Device => Failure::Plain(text),
        },
        SpendStage::ListReceivers => Failure::TransparentReceivers(text),
        SpendStage::Create(_) => match route {
            Route::Shield => Failure::CreateShielding(text),
            _ => Failure::CreateTransaction(text),
        },
        SpendStage::CreateUnsigned => Failure::CreatePczt(text),
        SpendStage::Sign => Failure::HardwareSigning(text),
        SpendStage::Extract => Failure::ExtractTransaction(text),
        SpendStage::Fetch { .. } => match route {
            Route::Payment | Route::Shield => Failure::GetTransaction(text),
            Route::Confirm | Route::Device => Failure::Plain(text),
        },
        SpendStage::Broadcast { .. } => Failure::Broadcast(text),
        _ => Failure::Plain(text),
    }
}

/// The step can fail with words of its own.
pub open spec fn can_fail(stage: SpendStage) -> bool {
    !(stage is FindParams) && !(stage is Done)
}

/// The key has been used, or will never be.
pub open spec fn key_is_spent(stage: SpendStage) -> bool {
    stage is Fetch || stage is Connect || stage is Broadcast || stage is Done
}

/// The key is gone once it is spent.
pub open spec fn without_spent_key(s: Spend) -> Spend {
    if key_is_spent(s.stage) {
        Spend { key: None, ..s }
    } else {
        s
    }
}

/// The transaction after `event`; an event that it does not wait for changes
/// nothing.
pub open spec fn spend_next(s: Spend, event: SpendEvent) -> Spend {
    without_spent_key(spend_moved(s, event))
}

/// The transaction after `event`, before its key is wiped.
pub open spec fn spend_moved(s: Spend, event: SpendEvent) -> Spend {
    match (s.stage, event) {
        (SpendStage::OpenWallet, SpendEvent::Finished) => if s.route == Route::Confirm {
            to_params(s)
        } else {
            Spend { stage: SpendStage::ListAccounts, ..s }
        },
        (SpendStage::ListAccounts, SpendEvent::Count(count)) => if count > 0 {
            with_account(s)
        } else {
            match s.route {
                Route::Payment | Route::Shield => Spend {
                    stage: SpendStage::Done(Err(Failure::NoAccountsInWallet)),
                    ..s
                },
                Route::Confirm | Route::Device => Spend {
                    stage: SpendStage::Done(Err(Failure::NoAccounts)),
                    ..s
                },
            }
        },
        (SpendStage::ListReceivers, SpendEvent::Receivers(receivers)) => if receivers@.len() > 0 {
            to_params(Spend { receivers, ..s })
        } else {
            Spend { stage: SpendStage::Done(Err(Failure::NoTransparentReceivers)), ..s }
        },
        (SpendStage::FindParams(dirs), SpendEvent::Probed(probes)) => Spend {
            stage: searched(dirs, probes@),
            ..s
        },
        (SpendStage::Create(_), SpendEvent::NotProposed(text)) => match s.route {
            Route::Payment => Spend { stage: SpendStage::Done(Err(Failure::Proposal(text))), ..s },
            Route::Shield => Spend {
                stage: SpendStage::Done(Err(Failure::ShieldingProposal(text))),
                ..s
            },
            Route::Confirm | Route::Device => s,
        },
        (SpendStage::Create(_), SpendEvent::Created(txid)) => Spend {
            stage: SpendStage::Fetch { txid },
            ..s
        },
        (SpendStage::CreateUnsigned, SpendEvent::Finished) => Spend {
            stage: SpendStage::Sign,
            ..s
        },
        (SpendStage::Sign, SpendEvent::Finished) => Spend { stage: SpendStage::Extract, ..s },
        (SpendStage::Sign, SpendEvent::Unreadable(f)) => Spend {
            stage: SpendStage::Done(Err(f)),
            ..s
        },
        (SpendStage::Extract, SpendEvent::Created(txid)) => Spend {
            stage: SpendStage::Fetch { txid },
            ..s
        },
        (SpendStage::Fetch { txid }, SpendEvent::Found(data)) => Spend {
            stage: SpendStage::Connect { txid, data },
            ..s
        },
        (SpendStage::Fetch { .. }, SpendEvent::Missing) => match s.route {
            Route::Device => Spend {
                stage: SpendStage::Done(Err(Failure::NotFoundAfterExtraction)),
                ..s
            },
            _ => Spend { stage: SpendStage::Done(Err(Failure::NotFoundAfterCreation)), ..s },
        },
        (SpendStage::Fetch { .. }, SpendEvent::NotEncoded(text)) => Spend {
            stage: SpendStage::Done(Err(Failure::SerializeTransaction(text))),
            ..s
        },
        (SpendStage::Connect { txid, data }, SpendEvent::Finished) => Spend {
            stage: SpendStage::Broadcast { txid, data, height: 0 },
            ..s
        },
        (SpendStage::Broadcast { txid, .. }, SpendEvent::Reply { code, message }) => if code == 0 {
            Spend { stage: SpendStage::Done(Ok(txid)), ..s }
        } else {
            Spend { stage: SpendStage::Done(Err(Failure::Rejected { code, message })), ..s }
        },
        (stage, SpendEvent::Failed(text)) => if can_fail(stage) {
            Spend { stage: SpendStage::Done(Err(step_failure(s.route, stage, text))), ..s }
        } else {
            s
        },
        _ => s,
    }
}

fn search_params(s: Spend) -> (r: Spend)
    ensures
        r == to_params(s),
{
    match s.dirs {
        None => Spend { stage: SpendStage::Done(Err(Failure::NoDataDirectory)), ..s },
        Some(dirs) => Spend { dirs: None, stage: SpendStage::FindParams(dirs), ..s },
    }
}

fn go_on_with_account(s: Spend) -> (r: Spend)
    ensures
        r == with_account(s),
{
    match s.fault {
        Some(f) => Spend { fault: None, stage: SpendStage::Done(Err(f)), ..s },
        None => match s.route {
            Route::Confirm | Route::Payment => search_params(s),
            Route::Shield => Spend { stage: SpendStage::ListReceivers, ..s },
            Route::Device => Spend { stage: SpendStage::CreateUnsigned, ..s },
        },
    }
}

fn failure_of(route: Route, stage: &SpendStage, text: String) -> (r: Failure)
    ensures
        r == step_failure(route, *stage, text),
{
    match stage {
        SpendStage::ListAccounts => match route {
            Route::Payment | Route::Shield => Failure::AccountIds(text),
            Route::Confirm | Route::Device => Failure::Plain(text),
        },
        SpendStage::ListReceivers => Failure::TransparentReceivers(text),
        SpendStage::Create(_) => match route {
            Route::Shield => Failure::CreateShielding(text),
            _ => Failure::CreateTransaction(text),
        },
        SpendStage::CreateUnsigned => Failure::CreatePczt(text),
        SpendStage::Sign => Failure::HardwareSigning(text),
        SpendStage::Extract => Failure::ExtractTransaction(text),
        SpendStage::Fetch { .. } => match route {
            Route::Payment | Route::Shield => Failure::GetTransaction(text),
            Route::Confirm | Route::Device => Failure::Plain(text),
        },
        SpendStage::Broadcast { .. } => Failure::Broadcast(text),
        _ => Failure::Plain(text),
    }
}

impl Spend {
    fn forget_key(self) -> (r: Spend)
        ensures
            r == without_spent_key(self),
    {
        let spent = match &self.stage {
            SpendStage::Fetch { .. }
            | SpendStage::Connect { .. }
            | SpendStage::Broadcast { .. }
            | SpendStage::Done(_) => true,
            _ => false,
        };
        if !spent {
            return self;
        }
        let Spend { route, key, plans, receivers, server, fault, dirs, stage } = self;
        if let Some(mut bytes) = key {
            wipe_bytes(&mut bytes);
        }
        Spend { route, key: None, plans, receivers, server, fault, dirs, stage }
    }

    /// Goes on with what came of the step that the transaction waited for.
    pub fn step(self, event: SpendEvent) -> (r: Spend)
        ensures
            r == spend_next(self, event),
    {
        self.moved(event).forget_key()
    }

    fn moved(self, event: SpendEvent) -> (r: Spend)
        ensures
            r == spend_moved(self, event),
    {
        let Spend { route, key, plans, receivers, server, fault, dirs, stage } = self;
        let next = match (stage, event) {
            (SpendStage::OpenWallet, SpendEvent::Finished) => {
                if route == Route::Confirm {
                    let s = Spend {
                        route,
                        key,
                        plans,
                        receivers,
                        server,
                        fault,
                        dirs,
                        stage: SpendStage::OpenWallet,
                    };
                    return search_params(s);
                }
                SpendStage::ListAccounts
            },
            (SpendStage::ListAccounts, SpendEvent::Count(count)) => {
                if count > 0 {
                    let s = Spend {
                        route,
                        key,
                        plans,
                        receivers,
                        server,
                        fault,
                        dirs,
                        stage: SpendStage::ListAccounts,
                    };
                    return go_on_with_account(s);
                }
                match route {
                    Route::Payment | Route::Shield => SpendStage::Done(
                        Err(Failure::NoAccountsInWallet),
                    ),
                    Route::Confirm | Route::Device => SpendStage::Done(Err(Failure::NoAccounts)),
                }
            },
            (SpendStage::ListReceivers, SpendEvent::Receivers(listed)) => {
                if listed.len() > 0 {
                    let s = Spend {
                        route,
                        key,
                        plans,
                        receivers: listed,
                        server,
                        fault,
                        dirs,
                        stage: SpendStage::ListReceivers,
                    };
                    return search_params(s);
                }
                SpendStage::Done(Err(Failure::NoTransparentReceivers))
            },
            (SpendStage::FindParams(candidates), SpendEvent::Probed(probes)) => choose_dir(
                candidates,
                &probes,
            ),
            (SpendStage::Create(dir), SpendEvent::NotProposed(text)) => match route {
                Route::Payment => SpendStage::Done(Err(Failure::Proposal(text))),
                Route::Shield => SpendStage::Done(Err(Failure::ShieldingProposal(text))),
                Route::Confirm | Route::Device => SpendStage::Create(dir),
            },
            (SpendStage::Create(_), SpendEvent::Created(txid)) => SpendStage::Fetch { txid },
            (SpendStage::CreateUnsigned, SpendEvent::Finished) => SpendStage::Sign,
            (SpendStage::Sign, SpendEvent::Finished) => SpendStage::Extract,
            (SpendStage::Sign, SpendEvent::Unreadable(f)) => SpendStage::Done(Err(f)),
            (SpendStage::Extract, SpendEvent::Created(txid)) => SpendStage::Fetch { txid },
            (SpendStage::Fetch { txid }, SpendEvent::Found(data)) => SpendStage::Connect {
                txid,
                data,
            },
            (SpendStage::Fetch { .. }, SpendEvent::Missing) => match route {
                Route::Device => SpendStage::Done(Err(Failure::NotFoundAfterExtraction)),
                _ => SpendStage::Done(Err(Failure::NotFoundAfterCreation)),
            },
            (SpendStage::Fetch { .. }, SpendEvent::NotEncoded(text)) => SpendStage::Done(
                Err(Failure::SerializeTransaction(text)),
            ),
            (SpendStage::Connect { txid, data }, SpendEvent::Finished) => SpendStage::Broadcast {
                txid,
                data,
                height: 0,
            },
            (SpendStage::Broadcast { txid, .. }, SpendEvent::Reply { code, message }) => {
                if code == 0 {
                    SpendStage::Done(Ok(txid))
                } else {
                    SpendStage::Done(Err(Failure::Rejected { code, message }))
                }
            },
            (SpendStage::FindParams(candidates), SpendEvent::Failed(_)) => SpendStage::FindParams(
                candidates,
            ),
            (SpendStage::Done(r), SpendEvent::Failed(_)) => SpendStage::Done(r),
            (other, SpendEvent::Failed(text)) => SpendStage::Done(
                Err(failure_of(route, &other, text)),
            ),
            (other, _) => other,
        };
        Spend { route, key, plans, receivers, server, fault, dirs, stage: next }
    }
}

// ---------------------------------------------------------------------------
// Where each way starts
// ---------------------------------------------------------------------------

/// The least transparent money that is worth shielding, in zatoshis.
pub const SHIELDING_THRESHOLD: u64 = 100_000;

/// The transaction is at the start of its way: the wallet of the engine is to be
/// opened.
pub open spec fn is_started(s: Spend, route: Route, engine: ZipherEngine) -> bool {
    &&& s.route == route
    &&& s.stage == SpendStage::OpenWallet
    &&& are_param_dirs(s.dirs, engine.db_data_path@)
    &&& s.server == engine.server_url
    &&& s.receivers@.len() == 0
    &&& route == Route::Payment || (s.plans@.len() == 0 && s.fault is None)
}

/// What is paid, or why it cannot be.
pub open spec fn payment_of(s: Spend) -> Result<Vec<SendPlan>, Failure> {
    match s.fault {
        Some(f) => Err(f),
        None => Ok(s.plans),
    }
}

/// A transaction at the start of its way, with the key that it is created with.
pub fn started(route: Route, engine: &ZipherEngine, key: Option<Vec<u8>>) -> (s: Spend)
    ensures
        is_started(s, route, *engine),
        s.plans@.len() == 0,
        s.fault is None,
        s.key == key,
{
    let dirs = load_prover_from_path(engine.db_data_path.as_str());
    Spend {
        route,
        key,
        plans: Vec::new(),
        receivers: Vec::new(),
        server: engine.server_url.clone(),
        fault: None,
        dirs,
        stage: SpendStage::OpenWallet,
    }
}

/// What comes of confirming a pending proposal with a seed phrase.
pub open spec fn confirmation_is<P>(
    r: Result<(P, Spend), Failure>,
    proposal: Option<P>,
    engine: Option<ZipherEngine>,
    phrase: Seq<char>,
) -> bool {
    match (proposal, engine) {
        (None, _) => r == Err::<(P, Spend), Failure>(Failure::NoPendingProposal),
        (_, None) => r == Err::<(P, Spend), Failure>(Failure::NotInitialized),
        (Some(proposal), Some(e)) => match r {
            Ok((p, s)) => {
                &&& p == proposal
                &&& is_started(s, Route::Confirm, e)
                &&& s.key is Some
                &&& phrase_key_is(Ok(s.key->0), e.params, phrase)
            },
            Err(f) => phrase_key_is(Err(f), e.params, phrase),
        },
    }
}

/// Starts to carry out the pending proposal with the key of the seed phrase. The
/// proposal is taken out, whatever comes of it.
pub fn confirm_send<P>(
    pending: &mut PendingSend<P>,
    engine: &Option<ZipherEngine>,
    phrase: &str,
) -> (r: Result<(P, Spend), Failure>)
    ensures
        *final(pending) == after_take(*old(pending)),
        confirmation_is(r, old(pending).proposal, *engine, phrase@),
{
    let proposal = match take_pending_proposal(pending) {
        Some(p) => p,
        None => return Err(Failure::NoPendingProposal),
    };
    match engine {
        None => Err(Failure::NotInitialized),
        Some(e) => match key_from_phrase(e.params, phrase) {
            Ok(key) => Ok((proposal, started(Route::Confirm, e, Some(key)))),
            Err(f) => Err(f),
        },
    }
}

/// What comes of starting a payment in one step.
pub open spec fn payment_start_is(
    r: Result<Spend, Failure>,
    engine: Option<ZipherEngine>,
    phrase: Seq<char>,
    recipients: Seq<(String, u64, Option<String>)>,
) -> bool {
    match engine {
        None => r == Err::<Spend, Failure>(Failure::NotInitialized),
        Some(e) => match r {
            Ok(s) => {
                &&& is_started(s, Route::Payment, e)
                &&& s.fault is Some ==> s.plans@.len() == 0
                &&& payment_plans_are(payment_of(s), e.params, recipients)
                &&& s.key is Some
                &&& phrase_key_is(Ok(s.key->0), e.params, phrase)
            },
            Err(f) => phrase_key_is(Err(f), e.params, phrase),
        },
    }
}

/// Starts a payment to one or more recipients in one step. What is wrong with it
/// comes to light once there is an account to pay from.
pub fn send_payment(
    engine: &Option<ZipherEngine>,
    phrase: &str,
    recipients: &Vec<(String, u64, Option<String>)>,
) -> (r: Result<Spend, Failure>)
    ensures
        payment_start_is(r, *engine, phrase@, recipients@),
{
    match engine {
        None => Err(Failure::NotInitialized),
        Some(e) => match key_from_phrase(e.params, phrase) {
            Ok(key) => {
                let s = started(Route::Payment, e, Some(key));
                match plan_payment(e.params, recipients) {
                    Ok(plans) => Ok(Spend { plans, ..s }),
                    Err(f) => Ok(Spend { fault: Some(f), ..s }),
                }
            },
            Err(f) => Err(f),
        },
    }
}

/// What comes of starting to shield.
pub open spec fn shielding_start_is(
    r: Result<Spend, Failure>,
    engine: Option<ZipherEngine>,
    phrase: Seq<char>,
) -> bool {
    match engine {
        None => r == Err::<Spend, Failure>(Failure::NotInitialized),
        Some(e) => match r {
            Ok(s) => {
                &&& is_started(s, Route::Shield, e)
                &&& s.key is Some
                &&& phrase_key_is(Ok(s.key->0), e.params, phrase)
            },
            Err(f) => phrase_key_is(Err(f), e.params, phrase),
        },
    }
}

/// Starts to move the transparent money of the wallet to its shielded pool.
pub fn shield_funds(engine: &Option<ZipherEngine>, phrase: &str) -> (r: Result<Spend, Failure>)
    ensures
        shielding_start_is(r, *engine, phrase@),
{
    match engine {
        None => Err(Failure::NotInitialized),
        Some(e) => match key_from_phrase(e.params, phrase) {
            Ok(key) => Ok(started(Route::Shield, e, Some(key))),
            Err(f) => Err(f),
        },
    }
}

// ---------------------------------------------------------------------------
// What is reported of an encoded transaction
// ---------------------------------------------------------------------------

/// The first fields of an encoded transaction.
#[derive(Clone, Copy, Debug, PartialEq, Eq, Structural)]
pub struct TxHeader {
    pub version: u32,
    pub version_group_id: u32,
    pub consensus_branch_id: u32,
}

/// The number that four bytes stand for, the lowest first.
pub open spec fn little_endian(data: Seq<u8>, at: int) -> int {
    data[at] + 256 * data[at + 1] + 65536 * data[at + 2] + 16777216 * data[at + 3]
}

fn read_u32(data: &Vec<u8>, at: usize) -> (r: u32)
    requires
        at + 4 <= data.len(),
    ensures
        r == little_endian(data@, at as int),
{
    let b0: u32 = data[at] as u32;
    let b1: u32 = data[at + 1] as u32;
    let b2: u32 = data[at + 2] as u32;
    let b3: u32 = data[at + 3] as u32;
    b0 + 256 * b1 + 65536 * b2 + 16777216 * b3
}

/// The fields are the first three of an encoded transaction; there are none where
/// it is too short.
pub open spec fn is_header_of(r: Option<TxHeader>, data: Seq<u8>) -> bool {
    &&& r is Some <==> data.len() >= 12
    &&& r matches Some(h) ==> {
        &&& h.version == little_endian(data, 0)
        &&& h.version_group_id == little_endian(data, 4)
        &&& h.consensus_branch_id == little_endian(data, 8)
    }
}

/// Reads the first fields of an encoded transaction, where it is long enough to
/// have them.
pub fn tx_header(data: &Vec<u8>) -> (r: Option<TxHeader>)
    ensures
        is_header_of(r, data@),
{
    if data.len() < 12 {
        return None;
    }
    let version = read_u32(data, 0);
    let version_group_id = read_u32(data, 4);
    let consensus_branch_id = read_u32(data, 8);
    Some(TxHeader { version, version_group_id, consensus_branch_id })
}

/// How many bytes are reported of so many.
pub open spec fn shown_of(len: nat) -> nat {
    if len <= 2000 {
        len
    } else {
        500
    }
}

/// How many bytes of an encoded transaction are reported: all of a short one,
/// the start of a long one.
pub fn reported_len(data: &Vec<u8>) -> (r: usize)
    ensures
        r == shown_of(data@.len()),
{
    if data.len() <= 2000 {
        data.len()
    } else {
        500
    }
}

// ---------------------------------------------------------------------------
// Laws
// ---------------------------------------------------------------------------

/// The transaction that is reached from `s` on these events.
pub open spec fn spend_run(s: Spend, events: Seq<SpendEvent>) -> Spend
    decreases events.len(),
{
    if events.len() == 0 {
        s
    } else {
        spend_next(spend_run(s, events.drop_last()), events.last())
    }
}

/// On its way a transaction keeps its route, its server and what is paid.
pub proof fn law_a_transaction_keeps_its_purpose(s: Spend, events: Seq<SpendEvent>)
    ensures
        spend_run(s, events).route == s.route,
        spend_run(s, events).server == s.server,
        spend_run(s, events).plans == s.plans,
    decreases events.len(),
{
    if events.len() > 0 {
        law_a_transaction_keeps_its_purpose(s, events.drop_last());
    }
}

/// The key stays what it was until the transaction is created or has failed, and
/// is gone from then on.
pub proof fn law_a_spent_key_is_gone(s: Spend, events: Seq<SpendEvent>)
    requires
        s.stage == SpendStage::OpenWallet,
    ensures
        ({
            let q = spend_run(s, events);
            q.key == if key_is_spent(q.stage) {
                None
            } else {
                s.key
            }
        }),
    decreases events.len(),
{
    if events.len() > 0 {
        law_a_spent_key_is_gone(s, events.drop_last());
    }
}

/// A transaction that has ended stays as it is.
pub proof fn law_an_ended_transaction_rests(s: Spend, event: SpendEvent)
    requires
        s.stage is Done,
    ensures
        spend_next(s, event) == without_spent_key(s),
{
}

/// On the way of shielding, a transaction is created from all the receivers that
/// the wallet listed, and there are some.
pub proof fn law_all_receivers_are_shielded(s: Spend, events: Seq<SpendEvent>)
    requires
        s.route == Route::Shield,
        s.stage == SpendStage::OpenWallet,
    ensures
        ({
            let q = spend_run(s, events);
            q.stage is FindParams || q.stage is Create ==> {
                &&& q.receivers@.len() > 0
                &&& events.contains(SpendEvent::Receivers(q.receivers))
            }
        }),
    decreases events.len(),
{
    law_a_transaction_keeps_its_purpose(s, events);
    if events.len() > 0 {
        let before = events.drop_last();
        let n = events.len() - 1;
        law_all_receivers_are_shielded(s, before);
        law_a_transaction_keeps_its_purpose(s, before);
        let was = spend_run(s, before);
        assert(events[n] == events.last());
        if was.stage is FindParams || was.stage is Create {
            let i = choose|i: int|
                0 <= i < before.len() && before[i] == SpendEvent::Receivers(was.receivers);
            assert(events[i] == SpendEvent::Receivers(was.receivers));
        }
    }
}

/// The transaction was created under this id at `i`.
pub open spec fn created_at(events: Seq<SpendEvent>, i: int, txid: String) -> bool {
    0 <= i < events.len() && events[i] == SpendEvent::Created(txid)
}

/// The wallet gave this encoding of the transaction, behind `i`, at `j`.
pub open spec fn found_at(events: Seq<SpendEvent>, i: int, j: int, data: Vec<u8>) -> bool {
    0 <= i < j < events.len() && events[j] == SpendEvent::Found(data)
}

/// The transaction under this id was created, and the wallet then gave this
/// encoding of it.
pub open spec fn was_found(events: Seq<SpendEvent>, txid: String, data: Vec<u8>) -> bool {
    exists|i: int, j: int|
        #[trigger] created_at(events, i, txid) && #[trigger] found_at(events, i, j, data)
}

/// The transaction under this id was created, and the server then accepted what
/// it was sent.
pub open spec fn was_accepted(events: Seq<SpendEvent>, txid: String) -> bool {
    exists|i: int, k: int|
        #[trigger] created_at(events, i, txid) && #[trigger] accepted_at(events, i, k)
}

/// The server accepted what it was sent, behind `i`, at `k`.
pub open spec fn accepted_at(events: Seq<SpendEvent>, i: int, k: int) -> bool {
    0 <= i < k < events.len() && events[k] is Reply && events[k]->Reply_code == 0
}

/// What a stage says of the transaction follows from these events.
pub open spec fn is_traced(stage: SpendStage, events: Seq<SpendEvent>) -> bool {
    match stage {
        SpendStage::Fetch { txid } => exists|i: int| created_at(events, i, txid),
        SpendStage::Connect { txid, data } => was_found(events, txid, data),
        SpendStage::Broadcast { txid, data, height } => height == 0 && was_found(
            events,
            txid,
            data,
        ),
        SpendStage::Done(Ok(txid)) => was_accepted(events, txid),
        _ => true,
    }
}

proof fn lemma_still_traced(stage: SpendStage, events: Seq<SpendEvent>)
    requires
        events.len() > 0,
        is_traced(stage, events.drop_last()),
    ensures
        is_traced(stage, events),
{
    let before = events.drop_last();
    match stage {
        SpendStage::Fetch { txid } => {
            let i = choose|i: int| created_at(before, i, txid);
            assert(created_at(events, i, txid));
        },
        SpendStage::Connect { txid, data } | SpendStage::Broadcast { txid, data, .. } => {
            let (i, j) = choose|i: int, j: int|
                #[trigger] created_at(before, i, txid) && #[trigger] found_at(before, i, j, data);
            assert(created_at(events, i, txid) && found_at(events, i, j, data));
        },
        SpendStage::Done(Ok(txid)) => {
            let (i, k) = choose|i: int, k: int|
                #[trigger] created_at(before, i, txid) && #[trigger] accepted_at(before, i, k);
            assert(created_at(events, i, txid) && accepted_at(events, i, k));
        },
        _ => {},
    }
}

/// What is sent to the server is what the wallet gave for the transaction that
/// was created, and the id that is reported as a success is the id of that
/// transaction, which the server accepted.
pub proof fn law_what_was_created_is_sent(s: Spend, events: Seq<SpendEvent>)
    requires
        s.stage == SpendStage::OpenWallet,
    ensures
        is_traced(spend_run(s, events).stage, events),
    decreases events.len(),
{
    if events.len() > 0 {
        let before = events.drop_last();
        let n = events.len() - 1;
        law_what_was_created_is_sent(s, before);
        let was = spend_run(s, before).stage;
        let stage = spend_run(s, events).stage;
        lemma_still_traced(was, events);
        assert(events[n] == events.last());
        match (was, stage) {
            (SpendStage::Fetch { txid }, SpendStage::Connect { data, .. }) => {
                let i = choose|i: int| created_at(before, i, txid);
                assert(created_at(events, i, txid) && found_at(events, i, n, data));
            },
            (SpendStage::Connect { .. }, SpendStage::Broadcast { .. }) => {},
            (SpendStage::Broadcast { txid, data, .. }, SpendStage::Done(Ok(_))) => {
                let (i, j) = choose|i: int, j: int|
                    #[trigger] created_at(before, i, txid) && #[trigger] found_at(
                        before,
                        i,
                        j,
                        data,
                    );
                assert(created_at(events, i, txid) && accepted_at(events, i, n));
            },
            (_, SpendStage::Fetch { txid }) => {
                if was != stage {
                    assert(created_at(events, n, txid));
                }
            },
            _ => {
                assert(stage == was || stage !is Done || stage->Done_0 is Err);
            },
        }
    }
}

/// A transaction that the server refuses is never a success: the refusal is
/// reported with the code and the words of the server.
pub proof fn law_a_refusal_is_reported(s: Spend, code: i32, message: String)
    requires
        s.stage is Broadcast,
        code != 0,
    ensures
        spend_next(s, SpendEvent::Reply { code, message }).stage == SpendStage::Done(
            Err(Failure::Rejected { code, message }),
        ),
{
}

/// On the way of a device nothing is created with a key of the wallet, and no
/// proving parameters are looked for.
pub proof fn law_a_device_signs_alone(s: Spend, events: Seq<SpendEvent>)
    requires
        s.route == Route::Device,
        s.stage == SpendStage::OpenWallet,
        s.key is None,
    ensures
        ({
            let q = spend_run(s, events);
            &&& q.key is None
            &&& !(q.stage is Create)
            &&& !(q.stage is FindParams)
            &&& !(q.stage is ListReceivers)
        }),
    decreases events.len(),
{
    law_a_transaction_keeps_its_purpose(s, events);
    if events.len() > 0 {
        law_a_device_signs_alone(s, events.drop_last());
        law_a_transaction_keeps_its_purpose(s, events.drop_last());
    }
}

/// On the other ways nothing is handed to a device, and a transaction is
/// created only with the parameters of a directory that was seen to hold both
/// files.
pub proof fn law_parameters_are_found_first(s: Spend, events: Seq<SpendEvent>)
    requires
        s.route != Route::Device,
        s.stage == SpendStage::OpenWallet,
    ensures
        ({
            let q = spend_run(s, events);
            &&& !(q.stage is CreateUnsigned)
            &&& !(q.stage is Sign)
            &&& !(q.stage is Extract)
            &&& q.stage is FindParams ==> s.dirs == Some(q.stage->FindParams_0)
            &&& q.dirs is Some ==> q.dirs == s.dirs
            &&& q.stage is Create ==> {
                &&& s.dirs is Some
                &&& s.dirs->0@.contains(q.stage->Create_0)
                &&& exists|k: int|
                    {
                        &&& 0 <= k < events.len()
                        &&& #[trigger] events[k] is Probed
                        &&& !none_complete(s.dirs->0@, events[k]->Probed_0@)
                    }
            }
        }),
    decreases events.len(),
{
    law_a_transaction_keeps_its_purpose(s, events);
    if events.len() > 0 {
        let before = events.drop_last();
        let n = events.len() - 1;
        law_parameters_are_found_first(s, before);
        law_a_transaction_keeps_its_purpose(s, before);
        let was = spend_run(s, before);
        let q = spend_run(s, events);
        assert(events[n] == events.last());
        if was.stage is FindParams && q.stage is Create {
            let dirs = was.stage->FindParams_0;
            let probes = events.last()->Probed_0@;
            assert(!none_complete(dirs@, probes));
            lemma_some_complete(dirs@, probes);
            let i = choose|i: int| first_complete(dirs@, probes, i);
            assert(dirs@[i] == q.stage->Create_0);
            assert(events[n] is Probed);
        }
        if was.stage is Create && q.stage is Create {
            let k = choose|k: int|
                {
                    &&& 0 <= k < before.len()
                    &&& #[trigger] before[k] is Probed
                    &&& !none_complete(s.dirs->0@, before[k]->Probed_0@)
                };
            assert(events[k] == before[k]);
        }
    }
}

proof fn lemma_some_complete(dirs: Seq<String>, probes: Seq<Probe>)
    requires
        !none_complete(dirs, probes),
    ensures
        exists|i: int| first_complete(dirs, probes, i),
{
    let j = choose|j: int|
        0 <= j < dirs.len() && j < probes.len() && is_complete(#[trigger] probes[j]);
    lemma_first_up_to(dirs, probes, j);
}

proof fn lemma_first_up_to(dirs: Seq<String>, probes: Seq<Probe>, j: int)
    requires
        0 <= j < dirs.len(),
        j < probes.len(),
        is_complete(probes[j]),
    ensures
        exists|i: int| first_complete(dirs, probes, i),
    decreases j,
{
    if forall|k: int| 0 <= k < j ==> !is_complete(#[trigger] probes[k]) {
        assert(first_complete(dirs, probes, j));
    } else {
        let k = choose|k: int| 0 <= k < j && is_complete(#[trigger] probes[k]);
        lemma_first_up_to(dirs, probes, k);
    }
}

/// The parameters of a wallet are looked for in its data directory first.
pub proof fn law_parameters_are_looked_for_beside_the_wallet(
    dirs: Option<Vec<String>>,
    data_dir: Seq<char>,
)
    requires
        are_param_dirs(dirs, crate::engine::data_path(data_dir)),
    ensures
        dirs is Some,
        dirs->0@.len() == 2,
        dirs->0@[0]@ == crate::paths::trimmed(data_dir),
{
    reveal_strlit("zipher-data.sqlite");
    crate::paths::law_the_parent_of_a_file_is_its_directory(data_dir, "zipher-data.sqlite"@);
}

/// Whatever a transaction was created from, it is fetched once it is created,
/// what was fetched is sent as it is, and the answer that accepts it makes the
/// id that it was created under the result.
pub proof fn law_a_created_transaction_reaches_the_server(
    s: Spend,
    txid: String,
    data: Vec<u8>,
    message: String,
)
    requires
        s.stage is Create || s.stage is Extract,
    ensures
        ({
            let created = spend_next(s, SpendEvent::Created(txid));
            let found = spend_next(created, SpendEvent::Found(data));
            let connected = spend_next(found, SpendEvent::Finished);
            let accepted = spend_next(connected, SpendEvent::Reply { code: 0, message });
            &&& created.stage == SpendStage::Fetch { txid }
            &&& found.stage == SpendStage::Connect { txid, data }
            &&& connected.stage == SpendStage::Broadcast { txid, data, height: 0 }
            &&& accepted.stage == SpendStage::Done(Ok(txid))
            &&& accepted.route == s.route
            &&& accepted.server == s.server
            &&& created.key is None
        }),
{
}

/// On every way, from the request for the encoded transaction on: it goes to the
/// server as it was found, and one that the server accepts with the code 0, and
/// no other, ends in its id.
pub proof fn law_a_found_transaction_is_broadcast(
    s: Spend,
    data: Vec<u8>,
    code: i32,
    message: String,
)
    requires
        s.stage is Fetch,
    ensures
        ({
            let txid = s.stage->Fetch_txid;
            let found = spend_next(s, SpendEvent::Found(data));
            let connected = spend_next(found, SpendEvent::Finished);
            let answered = spend_next(connected, SpendEvent::Reply { code, message });
            &&& found.stage == SpendStage::Connect { txid, data }
            &&& connected.stage == SpendStage::Broadcast { txid, data, height: 0 }
            &&& answered.stage is Done
            &&& answered.stage->Done_0 is Ok <==> code == 0
            &&& code == 0 ==> answered.stage->Done_0 == Ok::<String, Failure>(txid)
            &&& code != 0 ==> answered.stage->Done_0 == Err::<String, Failure>(
                Failure::Rejected { code, message },
            )
        }),
{
}

/// An answer of the server is judged by its code alone, wherever the transaction
/// came from and whatever was sent.
pub proof fn law_the_code_decides(
    s: Spend,
    q: Spend,
    code: i32,
    message: String,
    words: String,
)
    requires
        s.stage is Broadcast,
        q.stage is Broadcast,
    ensures
        ({
            let a = spend_next(s, SpendEvent::Reply { code, message }).stage;
            let b = spend_next(q, SpendEvent::Reply { code, message: words }).stage;
            &&& a is Done && b is Done
            &&& a->Done_0 is Ok <==> b->Done_0 is Ok
            &&& a->Done_0 is Ok <==> code == 0
            &&& a->Done_0 is Ok ==> a->Done_0->Ok_0 == s.stage->Broadcast_txid
        }),
{
}

/// Where the wallet does not have a transaction that was made, each way says so
/// in its words; one that it cannot encode is not sent either.
pub proof fn law_a_missing_transaction_is_reported(s: Spend, text: String)
    requires
        s.stage is Fetch,
    ensures
        ({
            let missing = spend_next(s, SpendEvent::Missing).stage;
            let garbled = spend_next(s, SpendEvent::NotEncoded(text)).stage;
            &&& missing is Done && missing->Done_0 is Err
            &&& failure_text(missing->Done_0->Err_0) == if s.route == Route::Device {
                "Transaction not found after extraction"@
            } else {
                "Transaction not found after creation"@
            }
            &&& garbled is Done && garbled->Done_0 is Err
            &&& failure_text(garbled->Done_0->Err_0) == "Serialize tx: "@ + text@
        }),
{
}

/// The transaction is created with the parameters of the first directory, among
/// those that were looked into, that holds the file for spending and the file for
/// outputs. Where none holds both, the directories that were searched are
/// reported.
pub proof fn law_the_first_directory_with_both_files(s: Spend, probes: Vec<Probe>)
    requires
        s.stage is FindParams,
    ensures
        ({
            let dirs = s.stage->FindParams_0;
            let n = if dirs@.len() < probes@.len() {
                dirs@.len() as int
            } else {
                probes@.len() as int
            };
            let stage = spend_next(s, SpendEvent::Probed(probes)).stage;
            &&& forall|i: int|
                #![trigger probes@[i]]
                0 <= i < n && probes@[i].spend == true && probes@[i].output == true && (forall|j: int|
                    #![trigger probes@[j]]
                    0 <= j < i ==> probes@[j].spend == false || probes@[j].output == false)
                    ==> stage == SpendStage::Create(dirs@[i])
            &&& (forall|j: int|
                #![trigger probes@[j]]
                0 <= j < n ==> probes@[j].spend == false || probes@[j].output == false) ==> stage
                == SpendStage::Done(Err(Failure::ParamsNotFound(dirs)))
            &&& stage is Create ==> exists|i: int|
                #![trigger probes@[i]]
                {
                    &&& 0 <= i < n
                    &&& stage == SpendStage::Create(dirs@[i])
                    &&& probes@[i].spend == true
                    &&& probes@[i].output == true
                }
            &&& stage is Create || stage is Done
        }),
{
    let dirs = s.stage->FindParams_0;
    let n = if dirs@.len() < probes@.len() {
        dirs@.len() as int
    } else {
        probes@.len() as int
    };
    if !none_complete(dirs@, probes@) {
        lemma_some_complete(dirs@, probes@);
        let first = choose|i: int| first_complete(dirs@, probes@, i);
        assert(probes@[first].spend && probes@[first].output);
        assert forall|i: int|
            #![trigger probes@[i]]
            0 <= i < n && probes@[i].spend == true && probes@[i].output == true && (forall|j: int|
                #![trigger probes@[j]]
                0 <= j < i ==> probes@[j].spend == false || probes@[j].output == false) implies i
            == first by {
            assert(is_complete(probes@[i]));
            if first < i {
                assert(is_complete(probes@[first]));
            }
        }
    } else {
        assert forall|j: int| #![trigger probes@[j]] 0 <= j < n implies probes@[j].spend == false
            || probes@[j].output == false by {
            assert(!is_complete(probes@[j]));
        }
    }
}

/// Shielding goes on with exactly the receivers that the wallet listed, one or
/// many. It is refused for want of receivers where, and only where, there is
/// none.
pub proof fn law_listed_receivers_are_shielded(s: Spend, list: Vec<Receiver>)
    requires
        s.stage is ListReceivers,
    ensures
        ({
            let q = spend_next(s, SpendEvent::Receivers(list));
            &&& list@.len() == 0 <==> q.stage == SpendStage::Done(
                Err(Failure::NoTransparentReceivers),
            )
            &&& list@.len() >= 1 ==> q.receivers == list
            &&& list@.len() >= 1 && s.dirs is Some ==> q.stage == SpendStage::FindParams(s.dirs->0)
            &&& list@.len() >= 1 && s.dirs is None ==> q.stage == SpendStage::Done(
                Err(Failure::NoDataDirectory),
            )
        }),
{
}

/// A wallet that was opened: a confirmed proposal is created at once, and every
/// other way asks for the accounts first.
pub proof fn law_an_opened_wallet_is_used(s: Spend)
    requires
        s.stage == SpendStage::OpenWallet,
    ensures
        ({
            let q = spend_next(s, SpendEvent::Finished);
            &&& s.route != Route::Confirm ==> q == (Spend { stage: SpendStage::ListAccounts, ..s })
            &&& s.route == Route::Confirm && s.dirs is Some ==> q.stage == SpendStage::FindParams(
                s.dirs->0,
            ) && q.key == s.key
            &&& s.route == Route::Confirm && s.dirs is None ==> q.stage == SpendStage::Done(
                Err(Failure::NoDataDirectory),
            )
        }),
{
}

/// One account is as good as many: what follows does not depend on how many
/// there are. Without one, the way ends, in words that depend on the route
/// alone.
pub proof fn law_one_account_is_enough(s: Spend, few: usize, many: usize)
    requires
        s.stage == SpendStage::ListAccounts,
        0 < few,
        0 < many,
    ensures
        spend_next(s, SpendEvent::Count(few)) == spend_next(s, SpendEvent::Count(many)),
        ({
            let none = spend_next(s, SpendEvent::Count(0)).stage;
            &&& none is Done && none->Done_0 is Err
            &&& failure_text(none->Done_0->Err_0) == if s.route == Route::Payment || s.route
                == Route::Shield {
                "No accounts in wallet"@
            } else {
                "No accounts"@
            }
        }),
{
}

/// With an account, what was found wrong with the payment comes to light; a
/// payment with nothing wrong goes on to the proving parameters, shielding to the
/// receivers, and a device to the unsigned transaction.
pub proof fn law_an_account_is_spent_from(s: Spend, count: usize)
    requires
        s.stage == SpendStage::ListAccounts,
        count >= 1,
    ensures
        ({
            let q = spend_next(s, SpendEvent::Count(count));
            &&& s.fault is Some ==> q.stage == SpendStage::Done(Err(s.fault->0))
            &&& s.fault is None && s.route == Route::Shield ==> q.stage
                == SpendStage::ListReceivers
            &&& s.fault is None && s.route == Route::Device ==> q.stage
                == SpendStage::CreateUnsigned
            &&& s.fault is None && s.route == Route::Payment && s.dirs is Some ==> q.stage
                == SpendStage::FindParams(s.dirs->0)
            &&& s.fault is None && s.route == Route::Payment && s.dirs is None ==> q.stage
                == SpendStage::Done(Err(Failure::NoDataDirectory))
            &&& s.fault is None && !(q.stage is Done) ==> q.key == s.key
            &&& q.fault is None
        }),
{
}

/// What a device has to do, it does in order: an unsigned transaction is
/// created, it is signed, and the transaction is extracted from what was signed.
pub proof fn law_a_device_signs_before_extraction(s: Spend, txid: String, fault: Failure)
    requires
        s.stage == SpendStage::CreateUnsigned,
    ensures
        ({
            let unsigned = spend_next(s, SpendEvent::Finished);
            let signed = spend_next(unsigned, SpendEvent::Finished);
            &&& unsigned == (Spend { stage: SpendStage::Sign, ..s })
            &&& signed == (Spend { stage: SpendStage::Extract, ..s })
            &&& spend_next(unsigned, SpendEvent::Unreadable(fault)).stage == SpendStage::Done(
                Err(fault),
            )
            &&& spend_next(signed, SpendEvent::Created(txid)).stage == SpendStage::Fetch { txid }
        }),
{
}

/// What the words of a failed step are put behind.
pub open spec fn is_told_behind(s: Spend, text: String, prefix: Seq<char>) -> bool {
    let q = spend_next(s, SpendEvent::Failed(text));
    &&& q.stage is Done
    &&& q.stage->Done_0 is Err
    &&& failure_text(q.stage->Done_0->Err_0) == prefix + text@
    &&& q.key is None
}

/// A step that fails ends the way. What it said is reported behind words that
/// tell which step it was.
pub proof fn law_a_failed_step_ends_the_way(s: Spend, text: String)
    ensures
        s.stage is OpenWallet || s.stage is Connect ==> is_told_behind(s, text, Seq::empty()),
        s.stage is ListAccounts && (s.route == Route::Payment || s.route == Route::Shield)
            ==> is_told_behind(s, text, "get_account_ids: "@),
        s.stage is ListAccounts && (s.route == Route::Confirm || s.route == Route::Device)
            ==> is_told_behind(s, text, Seq::empty()),
        s.stage is ListReceivers ==> is_told_behind(s, text, "get_transparent_receivers: "@),
        s.stage is Create && s.route != Route::Shield ==> is_told_behind(
            s,
            text,
            "Create tx failed: "@,
        ),
        s.stage is Create && s.route == Route::Shield ==> is_told_behind(
            s,
            text,
            "Create shielding tx failed: "@,
        ),
        s.stage is CreateUnsigned ==> is_told_behind(s, text, "Create PCZT failed: "@),
        s.stage is Sign ==> is_told_behind(s, text, "Hardware signing failed: "@),
        s.stage is Extract ==> is_told_behind(s, text, "Extract transaction failed: "@),
        s.stage is Fetch && (s.route == Route::Payment || s.route == Route::Shield)
            ==> is_told_behind(s, text, "get_transaction: "@),
        s.stage is Fetch && (s.route == Route::Confirm || s.route == Route::Device)
            ==> is_told_behind(s, text, Seq::empty()),
        s.stage is Broadcast ==> is_told_behind(s, text, "Broadcast failed: "@),
{
    assert(Seq::<char>::empty() + text@ =~= text@);
}

/// A payment or a shielding that cannot be proposed ends the way, in words that
/// tell which of them it was.
pub proof fn law_a_failed_proposal_ends_the_way(s: Spend, text: String)
    requires
        s.stage is Create,
        s.route == Route::Payment || s.route == Route::Shield,
    ensures
        ({
            let q = spend_next(s, SpendEvent::NotProposed(text));
            &&& q.stage is Done
            &&& q.stage->Done_0 is Err
            &&& q.key is None
            &&& failure_text(q.stage->Done_0->Err_0) == if s.route == Route::Payment {
                "Proposal failed: "@ + text@
            } else {
                "Shielding proposal failed: "@ + text@
            }
        }),
{
}

/// An event that the stage does not wait for leaves the stage as it is: each
/// answer counts only where its question was asked.
pub proof fn law_only_an_awaited_answer_counts(s: Spend, event: SpendEvent)
    requires
        event is Finished ==> !(s.stage is OpenWallet || s.stage is CreateUnsigned || s.stage is Sign
            || s.stage is Connect),
        event is Count ==> !(s.stage is ListAccounts),
        event is Receivers ==> !(s.stage is ListReceivers),
        event is Probed ==> !(s.stage is FindParams),
        event is NotProposed ==> !(s.stage is Create) || s.route == Route::Confirm || s.route
            == Route::Device,
        event is Created ==> !(s.stage is Create || s.stage is Extract),
        event is Unreadable ==> !(s.stage is Sign),
        event is Found || event is Missing || event is NotEncoded ==> !(s.stage is Fetch),
        event is Reply ==> !(s.stage is Broadcast),
        event is Failed ==> s.stage is FindParams || s.stage is Done,
    ensures
        spend_next(s, event).stage == s.stage,
        spend_next(s, event).receivers == s.receivers,
        spend_next(s, event).dirs == s.dirs,
        spend_next(s, event).fault == s.fault,
{
}

/// A step changes nothing but the stage, the receivers that it lists, the
/// directories that are handed to the search, the fault that is reported and the
/// key that is wiped. The key is wiped exactly when the transaction exists or the
/// way has ended.
pub proof fn law_a_step_keeps_the_rest(s: Spend, event: SpendEvent)
    ensures
        ({
            let q = spend_next(s, event);
            &&& q.route == s.route
            &&& q.plans == s.plans
            &&& q.server == s.server
            &&& s.stage is ListReceivers && event is Receivers && event->Receivers_0@.len() > 0
                ==> q.receivers == event->Receivers_0
            &&& !(s.stage is ListReceivers && event is Receivers && event->Receivers_0@.len() > 0)
                ==> q.receivers == s.receivers
            &&& q.stage is FindParams && !(s.stage is FindParams) ==> q.dirs is None && s.dirs
                == Some(q.stage->FindParams_0)
            &&& !(q.stage is FindParams && !(s.stage is FindParams)) ==> q.dirs == s.dirs
            &&& s.fault is Some && s.stage is ListAccounts && q.stage == SpendStage::Done(
                Err(s.fault->0),
            ) && event is Count && event->Count_0 > 0 ==> q.fault is None
            &&& !(s.stage is ListAccounts && event is Count && event->Count_0 > 0) ==> q.fault
                == s.fault
            &&& q.stage is Fetch || q.stage is Connect || q.stage is Broadcast || q.stage is Done
                ==> q.key is None
            &&& !(q.stage is Fetch || q.stage is Connect || q.stage is Broadcast
                || q.stage is Done) ==> q.key == s.key
        }),
{
}

/// The directories in which the parameters of a wallet are looked for: the one
/// that holds its database, then the one above that.
pub proof fn law_parameters_may_stand_above_the_wallet(
    dirs: Option<Vec<String>>,
    base: Seq<char>,
    name: Seq<char>,
    file: Seq<char>,
)
    requires
        is_file_name(name),
        is_file_name(file),
        are_param_dirs(dirs, join_spec(join_spec(base, name), file)),
    ensures
        dirs is Some,
        dirs->0@.len() == 2,
        dirs->0@[0]@ == join_spec(base, name),
        dirs->0@[1]@ == crate::paths::trimmed(base),
{
    crate::paths::law_the_parent_of_a_file_is_its_directory(join_spec(base, name), file);
    crate::paths::lemma_untrimmed_file(base, name);
    crate::paths::law_the_parent_of_a_file_is_its_directory(base, name);
}

/// The four bytes of a number are those that it was read from.
pub proof fn law_the_bytes_of_a_number_are_read_back(data: Seq<u8>, at: int)
    requires
        0 <= at,
        at + 4 <= data.len(),
    ensures
        0 <= little_endian(data, at) < 0x1_0000_0000,
        little_endian(data, at) % 256 == data[at],
        (little_endian(data, at) / 0x100) % 256 == data[at + 1],
        (little_endian(data, at) / 0x1_0000) % 256 == data[at + 2],
        little_endian(data, at) / 0x100_0000 == data[at + 3],
{
    let b0 = data[at] as int;
    let b1 = data[at + 1] as int;
    let b2 = data[at + 2] as int;
    let b3 = data[at + 3] as int;
    let v = little_endian(data, at);
    lemma_digits(v, b0, b1, b2, b3);
}

proof fn lemma_digits(v: int, b0: int, b1: int, b2: int, b3: int)
    requires
        0 <= b0 < 256,
        0 <= b1 < 256,
        0 <= b2 < 256,
        0 <= b3 < 256,
        v == b0 + 256 * b1 + 65536 * b2 + 16777216 * b3,
    ensures
        0 <= v < 0x1_0000_0000,
        v % 256 == b0,
        (v / 0x100) % 256 == b1,
        (v / 0x1_0000) % 256 == b2,
        v / 0x100_0000 == b3,
{
    let w1 = b1 + 256 * b2 + 65536 * b3;
    let w2 = b2 + 256 * b3;
    assert(v == b0 + 256 * w1);
    assert(v / 256 == w1 && v % 256 == b0);
    assert(w1 == b1 + 256 * w2);
    assert(w1 % 256 == b1);
    assert(v == (b0 + 256 * b1) + 65536 * w2);
    assert(v / 65536 == w2);
    assert(w2 % 256 == b2);
    assert(v == (b0 + 256 * b1 + 65536 * b2) + 16777216 * b3);
    assert(v / 16777216 == b3);
}

/// The transaction waits for the wallet of the engine to be opened, with this key
/// and nothing listed or found yet.
pub open spec fn is_ready(s: Spend, route: Route, engine: ZipherEngine, key: Seq<u8>) -> bool {
    &&& s.route == route
    &&& s.stage == SpendStage::OpenWallet
    &&& s.server == engine.server_url
    &&& s.receivers@.len() == 0
    &&& s.key is Some
    &&& s.key->0@ == key
    &&& are_param_dirs(s.dirs, engine.db_data_path@)
}

/// What is started with a seed phrase has the key of account 0 that the phrase
/// gives, and is refused exactly where there is no engine or the phrase gives no
/// key. A proposal that waits is the one that is carried out.
pub proof fn law_a_phrase_starts_a_transaction<P>(
    confirmed: Result<(P, Spend), Failure>,
    paid: Result<Spend, Failure>,
    shielded: Result<Spend, Failure>,
    proposal: Option<P>,
    engine: Option<ZipherEngine>,
    phrase: Seq<char>,
    recipients: Seq<(String, u64, Option<String>)>,
)
    requires
        confirmation_is(confirmed, proposal, engine, phrase),
        payment_start_is(paid, engine, phrase, recipients),
        shielding_start_is(shielded, engine, phrase),
    ensures
        proposal is None ==> confirmed is Err && failure_text(confirmed->Err_0)
            == "No pending proposal \u{2014} call propose_send first"@,
        engine is None ==> {
            &&& proposal is Some ==> confirmed is Err && failure_text(confirmed->Err_0)
                == "Engine not initialized"@
            &&& paid is Err && failure_text(paid->Err_0) == "Engine not initialized"@
            &&& shielded is Err && failure_text(shielded->Err_0) == "Engine not initialized"@
        },
        engine is Some ==> {
            let e = engine->0;
            let key = spending_key(e.params, phrase_seed(phrase, ""@), 0);
            &&& phrase_fault(phrase) is None && key is Ok ==> {
                &&& proposal is Some ==> {
                    &&& confirmed is Ok
                    &&& (confirmed->Ok_0).0 == proposal->0
                    &&& is_ready((confirmed->Ok_0).1, Route::Confirm, e, key->Ok_0)
                    &&& (confirmed->Ok_0).1.fault is None
                }
                &&& paid is Ok && is_ready(paid->Ok_0, Route::Payment, e, key->Ok_0)
                &&& shielded is Ok && is_ready(shielded->Ok_0, Route::Shield, e, key->Ok_0)
                &&& shielded->Ok_0.fault is None
            }
            &&& phrase_fault(phrase) is Some || key is Err ==> {
                let told = if phrase_fault(phrase) is Some {
                    "Invalid seed phrase: "@ + phrase_fault(phrase)->0
                } else {
                    "USK derivation: "@ + key->Err_0
                };
                &&& proposal is Some ==> confirmed is Err && failure_text(confirmed->Err_0) == told
                &&& paid is Err && failure_text(paid->Err_0) == told
                &&& shielded is Err && failure_text(shielded->Err_0) == told
            }
        },
{
}

/// A payment starts with the plans of its recipients, or with what is wrong with
/// them and no plan.
pub proof fn law_a_payment_starts_with_its_plans(
    paid: Result<Spend, Failure>,
    engine: ZipherEngine,
    phrase: Seq<char>,
    recipients: Seq<(String, u64, Option<String>)>,
)
    requires
        payment_start_is(paid, Some(engine), phrase, recipients),
        paid is Ok,
    ensures
        paid->Ok_0.fault is None ==> payment_plans_are(
            Ok(paid->Ok_0.plans),
            engine.params,
            recipients,
        ),
        paid->Ok_0.fault is Some ==> paid->Ok_0.plans@.len() == 0 && payment_plans_are(
            Err(paid->Ok_0.fault->0),
            engine.params,
            recipients,
        ),
{
}

/// The files of the parameters lie in their directory, each under its name.
pub proof fn law_the_names_of_the_parameters(files: (String, String), dir: Seq<char>)
    requires
        are_param_files(files, dir),
        dir.len() > 0,
        dir.last() != '/',
    ensures
        files.0@ == dir + seq!['/'] + "sapling-spend.params"@,
        files.1@ == dir + seq!['/'] + "sapling-output.params"@,
{
    crate::paths::law_a_name_follows_its_directory(dir, "sapling-spend.params"@);
    crate::paths::law_a_name_follows_its_directory(dir, "sapling-output.params"@);
}

/// The header is that of the first twelve bytes, four for each field, the lowest
/// first; what follows them is of no matter, and fewer bytes have no header.
pub proof fn law_a_header_takes_twelve_bytes(
    r: Option<TxHeader>,
    q: Option<TxHeader>,
    data: Seq<u8>,
    rest: Seq<u8>,
)
    requires
        is_header_of(r, data),
        is_header_of(q, data + rest),
    ensures
        data.len() < 12 ==> r is None,
        data.len() >= 12 ==> r is Some && q == r,
        data.len() >= 12 ==> {
            let h = r->0;
            &&& h.version % 256 == data[0]
            &&& (h.version as int / 0x100) % 256 == data[1]
            &&& (h.version as int / 0x1_0000) % 256 == data[2]
            &&& h.version as int / 0x100_0000 == data[3]
            &&& h.version_group_id % 256 == data[4]
            &&& (h.version_group_id as int / 0x100) % 256 == data[5]
            &&& (h.version_group_id as int / 0x1_0000) % 256 == data[6]
            &&& h.version_group_id as int / 0x100_0000 == data[7]
            &&& h.consensus_branch_id % 256 == data[8]
            &&& (h.consensus_branch_id as int / 0x100) % 256 == data[9]
            &&& (h.consensus_branch_id as int / 0x1_0000) % 256 == data[10]
            &&& h.consensus_branch_id as int / 0x100_0000 == data[11]
        },
{
    if data.len() >= 12 {
        law_the_bytes_of_a_number_are_read_back(data, 0);
        law_the_bytes_of_a_number_are_read_back(data, 4);
        law_the_bytes_of_a_number_are_read_back(data, 8);
        let all = data + rest;
        assert(all[0] == data[0] && all[1] == data[1] && all[2] == data[2] && all[3] == data[3]);
        assert(all[4] == data[4] && all[5] == data[5] && all[6] == data[6] && all[7] == data[7]);
        assert(all[8] == data[8] && all[9] == data[9] && all[10] == data[10] && all[11] == data[11]);
    }
}

/// Up to two thousand bytes are reported whole, and of more the first five
/// hundred: never more than there are.
pub proof fn law_what_is_reported_is_there(len: nat)
    ensures
        shown_of(len) <= len,
        len < 2001 ==> shown_of(len) == len,
        len > 2000 ==> shown_of(len) == 500,
{
}

} // verus!
