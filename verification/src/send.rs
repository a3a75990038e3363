//! Sending money, the first of two steps: what is to be sent is checked, a
//! proposal is made of it, and the proposal is kept until it is confirmed.
use vstd::prelude::*;
use vstd::utf8::encode_utf8;

use crate::engine::{Network, ZipherEngine};
use crate::external::{
    address_fault, address_kind, check_address, convert_address, encode_memo, padded_memo,
    zatoshis_from_u64, AddressKind, MAX_MONEY, MEMO_SIZE,
};
use crate::failure::{failure_text, Failure};
use crate::pass::Pool;
use crate::text::{contains, decimal};

verus! {

// ---------------------------------------------------------------------------
// The pending proposal
// ---------------------------------------------------------------------------

/// The proposal that waits to be confirmed, if any.
#[derive(Debug)]
pub struct PendingSend<P> {
    pub proposal: Option<P>,
}

impl<P> PendingSend<P> {
    /// Nothing waits.
    pub fn new() -> (r: Self)
        ensures
            r.proposal is None,
    {
        PendingSend { proposal: None }
    }
}

/// What is left when the pending proposal was taken out.
pub open spec fn after_take<P>(pending: PendingSend<P>) -> PendingSend<P> {
    PendingSend { proposal: None }
}

/// What there is when a proposal was kept.
pub open spec fn after_keep<P>(pending: PendingSend<P>, proposal: P) -> PendingSend<P> {
    PendingSend { proposal: Some(proposal) }
}

/// Takes the pending proposal out, `None` where there is none.
pub fn take_pending_proposal<P>(pending: &mut PendingSend<P>) -> (r: Option<P>)
    ensures
        r == old(pending).proposal,
        *final(pending) == after_take(*old(pending)),
{
    pending.proposal.take()
}

// ---------------------------------------------------------------------------
// What is to be sent
// ---------------------------------------------------------------------------

/// A payment whose parts have been checked.
#[derive(Debug)]
pub struct SendPlan {
    pub address: String,
    pub kind: AddressKind,
    /// The bytes of the memo, if there is one.
    pub memo: Option<Vec<u8>>,
    /// The amount in zatoshis; none where everything is to be sent.
    pub amount: Option<u64>,
}

/// The shielded pools that money is sent from: transparent money is never spent
/// by a send.
pub fn spend_pools() -> (r: Vec<Pool>)
    ensures
        r@ == seq![Pool::Sapling, Pool::Orchard],
{
    let mut pools: Vec<Pool> = Vec::new();
    pools.push(Pool::Sapling);
    pools.push(Pool::Orchard);
    assert(pools@ =~= seq![Pool::Sapling, Pool::Orchard]);
    pools
}

/// The pool that change goes to where no other is called for.
pub fn change_pool() -> (r: Pool)
    ensures
        r == Pool::Orchard,
{
    Pool::Orchard
}

/// The memo that goes with a payment: one that is not empty, and none to a
/// transparent address.
pub open spec fn sent_memo(kind: AddressKind, memo: Option<String>) -> Option<Seq<char>> {
    match memo {
        Some(m) => if m@.len() > 0 && kind != AddressKind::Transparent {
            Some(m@)
        } else {
            None
        },
        None => None,
    }
}

/// The memo, if any, fits.
pub open spec fn memo_fits(kind: AddressKind, memo: Option<String>) -> bool {
    sent_memo(kind, memo) matches Some(m) ==> encode_utf8(m).len() <= MEMO_SIZE
}

/// The bytes are those of the memo that goes with a payment.
pub open spec fn memo_bytes_are(
    bytes: Option<Vec<u8>>,
    kind: AddressKind,
    memo: Option<String>,
) -> bool {
    match (bytes, sent_memo(kind, memo)) {
        (Some(b), Some(m)) => b@ == padded_memo(encode_utf8(m)),
        (None, None) => true,
        _ => false,
    }
}

/// The text says that the memo that goes with a payment is too long.
pub open spec fn memo_fault_is(text: Seq<char>, kind: AddressKind, memo: Option<String>) -> bool {
    sent_memo(kind, memo) matches Some(m) && text == "TooLong("@ + decimal(encode_utf8(m).len())
        + ")"@
}

fn memo_for(kind: AddressKind, memo: &Option<String>) -> (r: Result<Option<Vec<u8>>, Failure>)
    ensures
        match r {
            Ok(bytes) => memo_fits(kind, *memo) && memo_bytes_are(bytes, kind, *memo),
            Err(Failure::Memo(text)) => !memo_fits(kind, *memo) && memo_fault_is(
                text@,
                kind,
                *memo,
            ),
            Err(_) => false,
        },
{
    match memo {
        Some(m) => {
            if m.as_str().is_empty() || kind == AddressKind::Transparent {
                Ok(None)
            } else {
                match encode_memo(m.as_str()) {
                    Ok(bytes) => Ok(Some(bytes)),
                    Err(text) => Err(Failure::Memo(text)),
                }
            }
        },
        None => Ok(None),
    }
}

/// The address parses, and stands for a receiver of this kind on the network.
pub open spec fn is_recipient(network: Network, address: Seq<char>, kind: AddressKind) -> bool {
    &&& address_fault(address) is None
    &&& address_kind(network, address) == Ok::<AddressKind, Seq<char>>(kind)
}

/// The failure is the one that the address calls for: it does not parse, or it
/// parses and stands for no receiver on the network.
pub open spec fn recipient_fault_is(network: Network, address: Seq<char>, f: Failure) -> bool {
    match f {
        Failure::InvalidAddress(text) => address_fault(address) == Some(text@),
        Failure::AddressConversion(text) => {
            &&& address_fault(address) is None
            &&& address_kind(network, address) == Err::<AddressKind, Seq<char>>(text@)
        },
        _ => false,
    }
}

/// The address stands for a receiver on the network.
pub open spec fn has_recipient(network: Network, address: Seq<char>) -> bool {
    address_fault(address) is None && address_kind(network, address) is Ok
}

/// The kind of receiver that an address of the network stands for.
pub open spec fn recipient_kind(network: Network, address: Seq<char>) -> AddressKind {
    address_kind(network, address)->Ok_0
}

/// The kind of receiver behind an address of the network.
fn recipient(network: Network, address: &str) -> (r: Result<AddressKind, Failure>)
    ensures
        match r {
            Ok(kind) => is_recipient(network, address@, kind),
            Err(f) => recipient_fault_is(network, address@, f),
        },
{
    match check_address(address) {
        Err(text) => Err(Failure::InvalidAddress(text)),
        Ok(_) => match convert_address(network, address) {
            Err(text) => Err(Failure::AddressConversion(text)),
            Ok(kind) => Ok(kind),
        },
    }
}

/// The outcome of checking what is to be sent to a receiver of this kind: the
/// memo comes before the amount, and the amount is of no matter where everything
/// is to be sent.
pub open spec fn plan_to_is(
    r: Result<SendPlan, Failure>,
    address: Seq<char>,
    kind: AddressKind,
    amount: u64,
    memo: Option<String>,
    is_max: bool,
) -> bool {
    match r {
        Ok(plan) => {
            &&& plan.address@ == address
            &&& plan.kind == kind
            &&& memo_fits(kind, memo)
            &&& memo_bytes_are(plan.memo, kind, memo)
            &&& is_max || amount <= MAX_MONEY
            &&& plan.amount == if is_max {
                None
            } else {
                Some(amount)
            }
        },
        Err(Failure::Memo(text)) => !memo_fits(kind, memo) && memo_fault_is(text@, kind, memo),
        Err(Failure::InvalidAmount) => {
            &&& memo_fits(kind, memo)
            &&& !is_max
            &&& amount > MAX_MONEY
        },
        Err(_) => false,
    }
}

/// Checks what is to be sent to a receiver of this kind.
pub fn plan_to(
    address: &str,
    kind: AddressKind,
    amount: u64,
    memo: &Option<String>,
    is_max: bool,
) -> (r: Result<SendPlan, Failure>)
    ensures
        plan_to_is(r, address@, kind, amount, *memo, is_max),
{
    let memo = match memo_for(kind, memo) {
        Ok(bytes) => bytes,
        Err(f) => return Err(f),
    };
    let amount = if is_max {
        None
    } else {
        match zatoshis_from_u64(amount) {
            Some(value) => Some(value),
            None => return Err(Failure::InvalidAmount),
        }
    };
    Ok(SendPlan { address: address.to_owned(), kind, memo, amount })
}

/// The outcome of checking what is to be sent to an address.
pub open spec fn send_plan_is(
    r: Result<SendPlan, Failure>,
    network: Network,
    address: Seq<char>,
    amount: u64,
    memo: Option<String>,
    is_max: bool,
) -> bool {
    if has_recipient(network, address) {
        plan_to_is(r, address, recipient_kind(network, address), amount, memo, is_max)
    } else {
        r is Err && recipient_fault_is(network, address, r->Err_0)
    }
}

/// Checks what is to be sent: the address, then the memo, then the amount. The
/// amount is of no matter where everything is to be sent.
pub fn plan_send(
    network: Network,
    address: &str,
    amount: u64,
    memo: &Option<String>,
    is_max: bool,
) -> (r: Result<SendPlan, Failure>)
    ensures
        send_plan_is(r, network, address@, amount, *memo, is_max),
{
    match recipient(network, address) {
        Ok(kind) => plan_to(address, kind, amount, memo, is_max),
        Err(f) => Err(f),
    }
}

/// The outcome of checking a payment to a receiver of this kind: the amount
/// comes before the memo.
pub open spec fn payment_to_is(
    r: Result<SendPlan, Failure>,
    address: Seq<char>,
    kind: AddressKind,
    amount: u64,
    memo: Option<String>,
) -> bool {
    match r {
        Ok(plan) => {
            &&& plan.address@ == address
            &&& plan.kind == kind
            &&& amount <= MAX_MONEY
            &&& plan.amount == Some(amount)
            &&& memo_fits(kind, memo)
            &&& memo_bytes_are(plan.memo, kind, memo)
        },
        Err(Failure::InvalidAmount) => amount > MAX_MONEY,
        Err(Failure::Memo(text)) => {
            &&& amount <= MAX_MONEY
            &&& !memo_fits(kind, memo)
            &&& memo_fault_is(text@, kind, memo)
        },
        Err(_) => false,
    }
}

/// Checks a payment to a receiver of this kind.
pub fn payment_to(address: &str, kind: AddressKind, amount: u64, memo: &Option<String>) -> (r:
    Result<SendPlan, Failure>)
    ensures
        payment_to_is(r, address@, kind, amount, *memo),
{
    let amount = match zatoshis_from_u64(amount) {
        Some(value) => value,
        None => return Err(Failure::InvalidAmount),
    };
    let memo = match memo_for(kind, memo) {
        Ok(bytes) => bytes,
        Err(f) => return Err(f),
    };
    Ok(SendPlan { address: address.to_owned(), kind, memo, amount: Some(amount) })
}

/// The outcome of checking a payment to one recipient: an address, an amount and
/// a memo.
pub open spec fn recipient_plan_is(
    r: Result<SendPlan, Failure>,
    network: Network,
    recipient: (String, u64, Option<String>),
) -> bool {
    let (address, amount, memo) = recipient;
    if has_recipient(network, address@) {
        payment_to_is(r, address@, recipient_kind(network, address@), amount, memo)
    } else {
        r is Err && recipient_fault_is(network, address@, r->Err_0)
    }
}

/// The recipient can be paid: the address stands for a receiver, the amount is
/// one, and the memo fits.
pub open spec fn is_payable(network: Network, recipient: (String, u64, Option<String>)) -> bool {
    let (address, amount, memo) = recipient;
    &&& has_recipient(network, address@)
    &&& amount <= MAX_MONEY
    &&& memo_fits(recipient_kind(network, address@), memo)
}

/// The first recipient that cannot be paid is at `i`, and the failure says why.
pub open spec fn is_first_unpayable(
    network: Network,
    recipients: Seq<(String, u64, Option<String>)>,
    i: int,
    f: Failure,
) -> bool {
    &&& 0 <= i < recipients.len()
    &&& recipient_plan_is(Err(f), network, recipients[i])
    &&& forall|j: int| 0 <= j < i ==> is_payable(network, #[trigger] recipients[j])
}

/// The outcome of checking a payment to several recipients: a plan for each, in
/// order, or what is wrong with the first that cannot be paid. There must be a
/// recipient.
pub open spec fn payment_plans_are(
    r: Result<Vec<SendPlan>, Failure>,
    network: Network,
    recipients: Seq<(String, u64, Option<String>)>,
) -> bool {
    if recipients.len() == 0 {
        r == Err::<Vec<SendPlan>, Failure>(Failure::NoRecipients)
    } else {
        match r {
            Ok(plans) => {
                &&& plans@.len() == recipients.len()
                &&& forall|i: int|
                    0 <= i < recipients.len() ==> recipient_plan_is(
                        Ok(#[trigger] plans@[i]),
                        network,
                        recipients[i],
                    )
            },
            Err(f) => exists|i: int| is_first_unpayable(network, recipients, i, f),
        }
    }
}

fn plan_recipient(network: Network, recipient: &(String, u64, Option<String>)) -> (r: Result<
    SendPlan,
    Failure,
>)
    ensures
        recipient_plan_is(r, network, *recipient),
{
    let (address, amount, memo) = recipient;
    match self::recipient(network, address.as_str()) {
        Ok(kind) => payment_to(address.as_str(), kind, *amount, memo),
        Err(f) => Err(f),
    }
}

/// Checks a payment to one or more recipients, one after another: the address,
/// then the amount, then the memo.
pub fn plan_payment(
    network: Network,
    recipients: &Vec<(String, u64, Option<String>)>,
) -> (r: Result<Vec<SendPlan>, Failure>)
    ensures
        payment_plans_are(r, network, recipients@),
{
    if recipients.len() == 0 {
        return Err(Failure::NoRecipients);
    }
    let mut plans: Vec<SendPlan> = Vec::new();
    for i in 0..recipients.len()
        invariant
            plans@.len() == i,
            recipients@.len() > 0,
            forall|j: int|
                0 <= j < i ==> recipient_plan_is(
                    Ok(#[trigger] plans@[j]),
                    network,
                    recipients@[j],
                ),
            forall|j: int| 0 <= j < i ==> is_payable(network, #[trigger] recipients@[j]),
    {
        match plan_recipient(network, &recipients[i]) {
            Ok(plan) => {
                plans.push(plan);
            },
            Err(f) => {
                assert(is_first_unpayable(network, recipients@, i as int, f));
                return Err(f);
            },
        }
    }
    Ok(plans)
}

/// The sum of the amounts that are given.
pub open spec fn total(amounts: Seq<Option<u64>>) -> nat
    decreases amounts.len(),
{
    if amounts.len() == 0 {
        0
    } else {
        total(amounts.drop_last()) + match amounts.last() {
            Some(a) => a as nat,
            None => 0,
        }
    }
}

proof fn lemma_total_grows(amounts: Seq<Option<u64>>, n: int)
    requires
        0 <= n <= amounts.len(),
    ensures
        total(amounts.take(n)) <= total(amounts),
    decreases amounts.len() - n,
{
    if n < amounts.len() {
        lemma_total_grows(amounts, n + 1);
        assert(amounts.take(n + 1).drop_last() =~= amounts.take(n));
    } else {
        assert(amounts.take(n) =~= amounts);
    }
}

/// What the payments of a proposal come to.
pub fn send_total(amounts: &Vec<Option<u64>>) -> (r: u64)
    requires
        total(amounts@) <= u64::MAX,
    ensures
        r == total(amounts@),
{
    let mut sum: u64 = 0;
    assert(amounts@.take(0) =~= Seq::<Option<u64>>::empty());
    for i in 0..amounts.len()
        invariant
            total(amounts@) <= u64::MAX,
            sum == total(amounts@.take(i as int)),
    {
        proof {
            lemma_total_grows(amounts@, i + 1);
            assert(amounts@.take(i + 1).drop_last() =~= amounts@.take(i as int));
            assert(amounts@.take(i + 1).last() == amounts@[i as int]);
        }
        if let Some(a) = amounts[i] {
            sum = sum + a;
        }
    }
    assert(amounts@.take(amounts@.len() as int) =~= amounts@);
    sum
}

// ---------------------------------------------------------------------------
// Proposing
// ---------------------------------------------------------------------------

/// A proposal in the making, and what it waits for.
#[derive(Debug)]
pub enum SendProposal {
    /// Open the wallet database.
    OpenWallet(Result<SendPlan, Failure>),
    /// List the accounts of the wallet.
    ListAccounts(Result<SendPlan, Failure>),
    /// Make the proposal, from the first account.
    Propose(SendPlan),
    /// Not carried out.
    Failed(Failure),
}

/// What came of the step that a proposal or a query waited for.
#[derive(Debug)]
pub enum ProposeEvent {
    /// The step was carried out.
    Finished,
    /// How many accounts the wallet has.
    Accounts(usize),
    /// A proposal was made; what its payments come to.
    Proposed(u64),
    /// The step failed.
    Failed(String),
}

/// What is proposed is checked once there is an account to send from.
pub open spec fn checked(plan: Result<SendPlan, Failure>) -> SendProposal {
    match plan {
        Ok(p) => SendProposal::Propose(p),
        Err(f) => SendProposal::Failed(f),
    }
}

/// The proposal after `event`; an event that it does not wait for changes
/// nothing.
pub open spec fn proposal_next(s: SendProposal, event: ProposeEvent) -> SendProposal {
    match (s, event) {
        (SendProposal::OpenWallet(plan), ProposeEvent::Finished) => SendProposal::ListAccounts(
            plan,
        ),
        (SendProposal::OpenWallet(_), ProposeEvent::Failed(text)) => SendProposal::Failed(
            Failure::Plain(text),
        ),
        (SendProposal::ListAccounts(plan), ProposeEvent::Accounts(count)) => if count == 0 {
            SendProposal::Failed(Failure::NoAccounts)
        } else {
            checked(plan)
        },
        (SendProposal::ListAccounts(_), ProposeEvent::Failed(text)) => SendProposal::Failed(
            Failure::Plain(text),
        ),
        (SendProposal::Propose(_), ProposeEvent::Failed(text)) => SendProposal::Failed(
            Failure::Proposal(text),
        ),
        (other, _) => other,
    }
}

/// What comes of starting to propose a send.
pub open spec fn proposal_start_is(
    r: Result<SendProposal, Failure>,
    engine: Option<ZipherEngine>,
    address: Seq<char>,
    amount: u64,
    memo: Option<String>,
    is_max: bool,
) -> bool {
    match engine {
        None => r == Err::<SendProposal, Failure>(Failure::NotInitialized),
        Some(e) => r matches Ok(SendProposal::OpenWallet(plan)) && send_plan_is(
            plan,
            e.params,
            address,
            amount,
            memo,
            is_max,
        ),
    }
}

/// Starts to propose a send. When `is_max` is true everything that can be spent
/// is sent, and `amount` is ignored.
pub fn propose_send(
    engine: &Option<ZipherEngine>,
    address: &str,
    amount: u64,
    memo: &Option<String>,
    is_max: bool,
) -> (r: Result<SendProposal, Failure>)
    ensures
        proposal_start_is(r, *engine, address@, amount, *memo, is_max),
{
    match engine {
        None => Err(Failure::NotInitialized),
        Some(e) => Ok(
            SendProposal::OpenWallet(plan_send(e.params, address, amount, memo, is_max)),
        ),
    }
}

impl SendProposal {
    /// Goes on with what came of the step that the proposal waited for.
    pub fn step(self, event: ProposeEvent) -> (r: SendProposal)
        ensures
            r == proposal_next(self, event),
    {
        match (self, event) {
            (
                SendProposal::OpenWallet(plan),
                ProposeEvent::Finished,
            ) => SendProposal::ListAccounts(plan),
            (SendProposal::OpenWallet(_), ProposeEvent::Failed(text)) => SendProposal::Failed(
                Failure::Plain(text),
            ),
            (SendProposal::ListAccounts(plan), ProposeEvent::Accounts(count)) => {
                if count == 0 {
                    SendProposal::Failed(Failure::NoAccounts)
                } else {
                    match plan {
                        Ok(p) => SendProposal::Propose(p),
                        Err(f) => SendProposal::Failed(f),
                    }
                }
            },
            (SendProposal::ListAccounts(_), ProposeEvent::Failed(text)) => SendProposal::Failed(
                Failure::Plain(text),
            ),
            (SendProposal::Propose(_), ProposeEvent::Failed(text)) => SendProposal::Failed(
                Failure::Proposal(text),
            ),
            (other, _) => other,
        }
    }
}

/// What is reported of a proposal: what is sent, what it costs, and that both are
/// exact.
pub open spec fn report_of(plan: SendPlan, sent: u64, fee: u64) -> (u64, u64, bool) {
    match plan.amount {
        Some(amount) => (amount, fee, true),
        None => (sent, fee, true),
    }
}

/// Keeps a proposal that was made for `plan`, in place of any earlier one, and
/// says what is sent, what it costs, and that both are exact. `sent` is what
/// the payments of the proposal come to.
pub fn keep_proposal<P>(
    pending: &mut PendingSend<P>,
    plan: &SendPlan,
    proposal: P,
    sent: u64,
    fee: u64,
) -> (r: (u64, u64, bool))
    ensures
        *final(pending) == after_keep(*old(pending), proposal),
        r == report_of(*plan, sent, fee),
{
    pending.proposal = Some(proposal);
    match plan.amount {
        Some(amount) => (amount, fee, true),
        None => (sent, fee, true),
    }
}

// ---------------------------------------------------------------------------
// How much can be sent
// ---------------------------------------------------------------------------

/// The query for the most that can be sent, and what it waits for.
#[derive(Debug)]
pub enum MaxQuery {
    /// Open the wallet database.
    OpenWallet(Result<String, Failure>),
    /// List the accounts of the wallet.
    ListAccounts(Result<String, Failure>),
    /// Propose to send everything to the address, from the first account and
    /// without a memo.
    Propose(String),
    /// Finished: the most that can be sent.
    Done(Result<u64, Failure>),
}

/// The wallet has too little money even for the fee.
pub open spec fn is_insufficient(text: Seq<char>) -> bool {
    crate::text::occurs(text, "InsufficientFunds"@)
}

/// The query after `event`; an event that it does not wait for changes nothing.
pub open spec fn query_next(s: MaxQuery, event: ProposeEvent) -> MaxQuery {
    match (s, event) {
        (MaxQuery::OpenWallet(address), ProposeEvent::Finished) => MaxQuery::ListAccounts(address),
        (MaxQuery::OpenWallet(_), ProposeEvent::Failed(text)) => MaxQuery::Done(
            Err(Failure::Plain(text)),
        ),
        (MaxQuery::ListAccounts(address), ProposeEvent::Accounts(count)) => if count == 0 {
            MaxQuery::Done(Err(Failure::NoAccounts))
        } else {
            match address {
                Ok(a) => MaxQuery::Propose(a),
                Err(f) => MaxQuery::Done(Err(f)),
            }
        },
        (MaxQuery::ListAccounts(_), ProposeEvent::Failed(text)) => MaxQuery::Done(
            Err(Failure::Plain(text)),
        ),
        (MaxQuery::Propose(_), ProposeEvent::Proposed(sent)) => MaxQuery::Done(Ok(sent)),
        (MaxQuery::Propose(_), ProposeEvent::Failed(text)) => if is_insufficient(text@) {
            MaxQuery::Done(Ok(0))
        } else {
            MaxQuery::Done(Err(Failure::MaxProposal(text)))
        },
        (other, _) => other,
    }
}

/// The query is at its start, for an address of which `checked` says whether it
/// is one.
pub open spec fn is_query_for(r: MaxQuery, address: Seq<char>, checked: Result<(), String>) -> bool {
    match checked {
        Ok(_) => {
            &&& r matches MaxQuery::OpenWallet(Ok(a))
            &&& a@ == address
        },
        Err(text) => r == MaxQuery::OpenWallet(Err(Failure::InvalidAddress(text))),
    }
}

/// The query for an address, where `checked` says whether it is one.
pub fn max_query(address: &str, checked: Result<(), String>) -> (r: MaxQuery)
    ensures
        is_query_for(r, address@, checked),
{
    match checked {
        Ok(_) => MaxQuery::OpenWallet(Ok(address.to_owned())),
        Err(text) => MaxQuery::OpenWallet(Err(Failure::InvalidAddress(text))),
    }
}

/// What comes of starting to find out the most that can be sent.
pub open spec fn query_start_is(
    r: Result<MaxQuery, Failure>,
    engine: Option<ZipherEngine>,
    address: Seq<char>,
) -> bool {
    match engine {
        None => r == Err::<MaxQuery, Failure>(Failure::NotInitialized),
        Some(_) => {
            &&& r matches Ok(MaxQuery::OpenWallet(checked))
            &&& match checked {
                Ok(a) => a@ == address && address_fault(address) is None,
                Err(Failure::InvalidAddress(text)) => address_fault(address) == Some(text@),
                Err(_) => false,
            }
        },
    }
}

/// Starts to find out the most that can be sent to an address. Only shielded
/// money counts.
pub fn get_max_sendable(engine: &Option<ZipherEngine>, address: &str) -> (r: Result<
    MaxQuery,
    Failure,
>)
    ensures
        query_start_is(r, *engine, address@),
{
    match engine {
        None => Err(Failure::NotInitialized),
        Some(_) => Ok(max_query(address, check_address(address))),
    }
}

impl MaxQuery {
    /// Goes on with what came of the step that the query waited for.
    pub fn step(self, event: ProposeEvent) -> (r: MaxQuery)
        ensures
            r == query_next(self, event),
    {
        match (self, event) {
            (MaxQuery::OpenWallet(address), ProposeEvent::Finished) => MaxQuery::ListAccounts(
                address,
            ),
            (MaxQuery::OpenWallet(_), ProposeEvent::Failed(text)) => MaxQuery::Done(
                Err(Failure::Plain(text)),
            ),
            (MaxQuery::ListAccounts(address), ProposeEvent::Accounts(count)) => {
                if count == 0 {
                    MaxQuery::Done(Err(Failure::NoAccounts))
                } else {
                    match address {
                        Ok(a) => MaxQuery::Propose(a),
                        Err(f) => MaxQuery::Done(Err(f)),
                    }
                }
            },
            (MaxQuery::ListAccounts(_), ProposeEvent::Failed(text)) => MaxQuery::Done(
                Err(Failure::Plain(text)),
            ),
            (MaxQuery::Propose(_), ProposeEvent::Proposed(sent)) => MaxQuery::Done(Ok(sent)),
            (MaxQuery::Propose(_), ProposeEvent::Failed(text)) => {
                if contains(text.as_str(), "InsufficientFunds") {
                    MaxQuery::Done(Ok(0))
                } else {
                    MaxQuery::Done(Err(Failure::MaxProposal(text)))
                }
            },
            (other, _) => other,
        }
    }
}

// ---------------------------------------------------------------------------
// Laws
// ---------------------------------------------------------------------------

/// The latest proposal is the one that is confirmed, and it can be confirmed
/// once: taken out, nothing waits any more.
pub proof fn law_the_latest_proposal_waits_once<P>(pending: PendingSend<P>, first: P, second: P)
    ensures
        after_keep(after_keep(pending, first), second).proposal == Some(second),
        after_take(after_keep(pending, second)).proposal is None,
{
}

/// A memo never goes to a transparent address, and an empty one goes nowhere.
pub proof fn law_no_memo_to_a_transparent_address(kind: AddressKind, memo: Option<String>)
    ensures
        sent_memo(AddressKind::Transparent, memo) is None,
        (memo matches Some(m) ==> m@.len() == 0) ==> sent_memo(kind, memo) is None,
        memo_fits(AddressKind::Transparent, memo),
{
}

/// The bytes of a memo are always as many as a memo has.
pub proof fn law_a_memo_has_its_size(bytes: Option<Vec<u8>>, kind: AddressKind, memo: Option<String>)
    requires
        memo_fits(kind, memo),
        memo_bytes_are(bytes, kind, memo),
    ensures
        bytes matches Some(b) ==> b@.len() == MEMO_SIZE,
{
}

/// Every way to check a send has one outcome: two outcomes of the same send
/// agree on success, and on what is sent.
pub proof fn law_a_check_has_one_outcome(
    a: Result<SendPlan, Failure>,
    b: Result<SendPlan, Failure>,
    network: Network,
    address: Seq<char>,
    amount: u64,
    memo: Option<String>,
    is_max: bool,
)
    requires
        send_plan_is(a, network, address, amount, memo, is_max),
        send_plan_is(b, network, address, amount, memo, is_max),
    ensures
        a is Ok <==> b is Ok,
        a is Ok ==> {
            &&& a->Ok_0.address@ == b->Ok_0.address@
            &&& a->Ok_0.kind == b->Ok_0.kind
            &&& a->Ok_0.amount == b->Ok_0.amount
            &&& a->Ok_0.memo is Some <==> b->Ok_0.memo is Some
            &&& a->Ok_0.memo is Some ==> a->Ok_0.memo->0@ == b->Ok_0.memo->0@
        },
        a is Err ==> crate::failure::failure_text(a->Err_0) == crate::failure::failure_text(
            b->Err_0,
        ),
{
}

/// A payment is planned exactly where there is a recipient and every recipient
/// can be paid; each then gets its own amount at its own address, in order.
pub proof fn law_every_recipient_is_paid(
    r: Result<Vec<SendPlan>, Failure>,
    network: Network,
    recipients: Seq<(String, u64, Option<String>)>,
    i: int,
)
    requires
        payment_plans_are(r, network, recipients),
    ensures
        r is Ok <==> recipients.len() > 0 && forall|j: int|
            0 <= j < recipients.len() ==> is_payable(network, #[trigger] recipients[j]),
        r is Ok && 0 <= i < recipients.len() ==> {
            &&& r->Ok_0@.len() == recipients.len()
            &&& r->Ok_0@[i].address@ == recipients[i].0@
            &&& r->Ok_0@[i].amount == Some(recipients[i].1)
        },
{
    if recipients.len() > 0 {
        if let Ok(plans) = r {
            assert forall|j: int| 0 <= j < recipients.len() implies is_payable(
                network,
                #[trigger] recipients[j],
            ) by {
                assert(recipient_plan_is(Ok(plans@[j]), network, recipients[j]));
            }
            if 0 <= i < recipients.len() {
                assert(recipient_plan_is(Ok(plans@[i]), network, recipients[i]));
            }
        }
    }
}

/// The proposal that is reached from `s` on these events.
pub open spec fn proposal_run(s: SendProposal, events: Seq<ProposeEvent>) -> SendProposal
    decreases events.len(),
{
    if events.len() == 0 {
        s
    } else {
        proposal_next(proposal_run(s, events.drop_last()), events.last())
    }
}

/// A proposal is made only of what passed every check, unchanged, and only where
/// the wallet has an account.
pub proof fn law_only_a_checked_send_is_proposed(
    plan: Result<SendPlan, Failure>,
    events: Seq<ProposeEvent>,
)
    ensures
        match proposal_run(SendProposal::OpenWallet(plan), events) {
            SendProposal::OpenWallet(p) | SendProposal::ListAccounts(p) => p == plan,
            SendProposal::Propose(p) => {
                &&& plan == Ok::<SendPlan, Failure>(p)
                &&& exists|i: int|
                    0 <= i < events.len() && (#[trigger] events[i] matches ProposeEvent::Accounts(
                        count,
                    ) && count > 0)
            },
            SendProposal::Failed(_) => true,
        },
    decreases events.len(),
{
    if events.len() > 0 {
        let before = events.drop_last();
        law_only_a_checked_send_is_proposed(plan, before);
        let was = proposal_run(SendProposal::OpenWallet(plan), before);
        let n = events.len() - 1;
        assert(events[n] == events.last());
        if was is Propose {
            let i = choose|i: int|
                0 <= i < before.len() && (#[trigger] before[i] matches ProposeEvent::Accounts(
                    count,
                ) && count > 0);
            assert(events[i] == before[i]);
        }
    }
}

/// What can be sent at most is what a proposal came to, or nothing where the
/// money does not even cover the fee.
pub proof fn law_the_most_is_what_was_proposed(s: MaxQuery, event: ProposeEvent)
    ensures
        query_next(s, event) matches MaxQuery::Done(Ok(most)) ==> {
            ||| s == MaxQuery::Done(Ok(most))
            ||| s is Propose && event == ProposeEvent::Proposed(most)
            ||| {
                &&& s is Propose
                &&& most == 0
                &&& event is Failed
                &&& is_insufficient(event->Failed_0@)
            }
        },
        s is Done ==> query_next(s, event) == s,
{
}

/// The 512 bytes hold the text, encoded, and nothing but zeros behind it.
pub open spec fn holds_text(bytes: Seq<u8>, text: Seq<char>) -> bool {
    let encoded = encode_utf8(text);
    &&& bytes.len() == 512
    &&& encoded.len() <= 512
    &&& forall|i: int| 0 <= i < encoded.len() ==> #[trigger] bytes[i] == encoded[i]
    &&& forall|i: int| encoded.len() <= i < 512 ==> #[trigger] bytes[i] == 0
}

/// A memo that says something and fits goes with every payment to an address
/// that is not transparent, of whichever kind, whatever is sent. Such a payment
/// is refused only for its amount: at most 21 million coins can be sent.
pub proof fn law_a_memo_goes_with_the_payment(
    r: Result<SendPlan, Failure>,
    q: Result<SendPlan, Failure>,
    address: Seq<char>,
    kind: AddressKind,
    amount: u64,
    memo: String,
    is_max: bool,
)
    requires
        plan_to_is(r, address, kind, amount, Some(memo), is_max),
        payment_to_is(q, address, kind, amount, Some(memo)),
        kind == AddressKind::Sapling || kind == AddressKind::Unified || kind == AddressKind::Tex,
        memo@.len() > 0,
        encode_utf8(memo@).len() <= 512,
    ensures
        r is Ok <==> is_max || amount <= 2_100_000_000_000_000,
        r is Ok ==> {
            &&& r->Ok_0.address@ == address
            &&& r->Ok_0.kind == kind
            &&& r->Ok_0.memo is Some
            &&& holds_text(r->Ok_0.memo->0@, memo@)
            &&& r->Ok_0.amount == if is_max {
                None
            } else {
                Some(amount)
            }
        },
        r is Err ==> failure_text(r->Err_0) == "Invalid amount"@,
        q is Ok <==> amount <= 2_100_000_000_000_000,
        q is Ok ==> {
            &&& q->Ok_0.address@ == address
            &&& q->Ok_0.kind == kind
            &&& q->Ok_0.memo is Some
            &&& holds_text(q->Ok_0.memo->0@, memo@)
            &&& q->Ok_0.amount == Some(amount)
        },
        q is Err ==> failure_text(q->Err_0) == "Invalid amount"@,
{
    assert(sent_memo(kind, Some(memo)) == Some(memo@));
}

/// A memo of more than 512 bytes to an address that is not transparent is
/// refused, with its size. A send is refused for its memo first, a payment for
/// its amount first.
pub proof fn law_a_long_memo_is_refused(
    r: Result<SendPlan, Failure>,
    q: Result<SendPlan, Failure>,
    address: Seq<char>,
    kind: AddressKind,
    amount: u64,
    memo: String,
    is_max: bool,
)
    requires
        plan_to_is(r, address, kind, amount, Some(memo), is_max),
        payment_to_is(q, address, kind, amount, Some(memo)),
        kind == AddressKind::Sapling || kind == AddressKind::Unified || kind == AddressKind::Tex,
        encode_utf8(memo@).len() > 512,
    ensures
        r is Err,
        failure_text(r->Err_0) == "Memo error: "@ + ("TooLong("@ + decimal(
            encode_utf8(memo@).len(),
        ) + ")"@),
        q is Err,
        amount > 2_100_000_000_000_000 ==> failure_text(q->Err_0) == "Invalid amount"@,
        amount <= 2_100_000_000_000_000 ==> failure_text(q->Err_0) == failure_text(r->Err_0),
{
    if memo@.len() == 0 {
        assert(memo@ =~= Seq::<char>::empty());
        assert(encode_utf8(memo@).len() == 0) by {
            reveal_with_fuel(encode_utf8, 1);
        }
    }
    assert(sent_memo(kind, Some(memo)) == Some(memo@));
}

/// To a transparent address no memo goes, however long, and no other payment
/// carries one that is empty or missing. Such a payment depends on the amount
/// alone.
pub proof fn law_a_payment_without_a_memo(
    r: Result<SendPlan, Failure>,
    q: Result<SendPlan, Failure>,
    address: Seq<char>,
    kind: AddressKind,
    amount: u64,
    memo: Option<String>,
    is_max: bool,
)
    requires
        plan_to_is(r, address, kind, amount, memo, is_max),
        payment_to_is(q, address, kind, amount, memo),
        kind == AddressKind::Transparent || memo is None || memo->0@.len() == 0,
    ensures
        r is Ok <==> is_max || amount <= 2_100_000_000_000_000,
        r is Ok ==> {
            &&& r->Ok_0.address@ == address
            &&& r->Ok_0.kind == kind
            &&& r->Ok_0.memo is None
            &&& r->Ok_0.amount == if is_max {
                None
            } else {
                Some(amount)
            }
        },
        r is Err ==> failure_text(r->Err_0) == "Invalid amount"@,
        q is Ok <==> amount <= 2_100_000_000_000_000,
        q is Ok ==> {
            &&& q->Ok_0.address@ == address
            &&& q->Ok_0.kind == kind
            &&& q->Ok_0.memo is None
            &&& q->Ok_0.amount == Some(amount)
        },
        q is Err ==> failure_text(q->Err_0) == "Invalid amount"@,
{
}

/// An address that does not parse, or that stands for no receiver on the
/// network, is refused before the memo and the amount are looked at, with what
/// is wrong with it. Every other one is sent to as what it stands for.
pub proof fn law_a_wrong_address_is_refused_first(
    r: Result<SendPlan, Failure>,
    q: Result<SendPlan, Failure>,
    network: Network,
    recipient: (String, u64, Option<String>),
    is_max: bool,
)
    requires
        send_plan_is(r, network, recipient.0@, recipient.1, recipient.2, is_max),
        recipient_plan_is(q, network, recipient),
    ensures
        ({
            let address = recipient.0@;
            let fault = address_fault(address);
            let kind = address_kind(network, address);
            &&& fault is Some ==> r is Err && failure_text(r->Err_0) == "Invalid address: "@
                + fault->0
            &&& fault is None && kind is Err ==> r is Err && failure_text(r->Err_0)
                == "Address conversion: "@ + kind->Err_0
            &&& fault is Some || kind is Err ==> q is Err && failure_text(q->Err_0)
                == failure_text(r->Err_0)
            &&& fault is None && kind is Ok ==> plan_to_is(
                r,
                address,
                kind->Ok_0,
                recipient.1,
                recipient.2,
                is_max,
            )
            &&& fault is None && kind is Ok ==> payment_to_is(
                q,
                address,
                kind->Ok_0,
                recipient.1,
                recipient.2,
            )
        }),
{
}

/// A payment to several is planned as a payment to each of them would be, in
/// order. It fails as the payment to the first that cannot be paid would, and a
/// payment to nobody fails by itself.
pub proof fn law_recipients_are_planned_one_by_one(
    r: Result<Vec<SendPlan>, Failure>,
    network: Network,
    recipients: Seq<(String, u64, Option<String>)>,
    singles: Seq<Result<SendPlan, Failure>>,
)
    requires
        payment_plans_are(r, network, recipients),
        singles.len() == recipients.len(),
        forall|i: int|
            0 <= i < recipients.len() ==> recipient_plan_is(
                #[trigger] singles[i],
                network,
                recipients[i],
            ),
    ensures
        recipients.len() == 0 ==> r is Err && failure_text(r->Err_0)
            == "Multi-recipient sends not yet implemented in the new engine"@,
        r is Ok <==> recipients.len() > 0 && forall|i: int|
            0 <= i < singles.len() ==> #[trigger] singles[i] is Ok,
        r is Ok ==> r->Ok_0@.len() == recipients.len() && forall|i: int|
            #![trigger r->Ok_0@[i]]
            #![trigger singles[i]]
            0 <= i < recipients.len() ==> {
                &&& r->Ok_0@[i].address@ == singles[i]->Ok_0.address@
                &&& r->Ok_0@[i].kind == singles[i]->Ok_0.kind
                &&& r->Ok_0@[i].amount == singles[i]->Ok_0.amount
                &&& r->Ok_0@[i].memo is Some <==> singles[i]->Ok_0.memo is Some
                &&& r->Ok_0@[i].memo is Some ==> r->Ok_0@[i].memo->0@ == singles[i]->Ok_0.memo->0@
            },
        forall|i: int|
            0 <= i < singles.len() && #[trigger] singles[i] is Err && (forall|j: int|
                0 <= j < i ==> #[trigger] singles[j] is Ok) ==> r is Err && failure_text(r->Err_0)
                == failure_text(singles[i]->Err_0),
{
    if recipients.len() > 0 {
        match r {
            Ok(plans) => {
                assert forall|i: int|
                    #![trigger plans@[i]]
                    #![trigger singles[i]]
                    0 <= i < recipients.len() implies singles[i] is Ok && {
                    &&& plans@[i].address@ == singles[i]->Ok_0.address@
                    &&& plans@[i].kind == singles[i]->Ok_0.kind
                    &&& plans@[i].amount == singles[i]->Ok_0.amount
                    &&& plans@[i].memo is Some <==> singles[i]->Ok_0.memo is Some
                    &&& plans@[i].memo is Some ==> plans@[i].memo->0@ == singles[i]->Ok_0.memo->0@
                } by {
                    assert(recipient_plan_is(Ok(plans@[i]), network, recipients[i]));
                    assert(recipient_plan_is(singles[i], network, recipients[i]));
                }
            },
            Err(f) => {
                let first = choose|i: int| is_first_unpayable(network, recipients, i, f);
                assert(recipient_plan_is(singles[first], network, recipients[first]));
                assert(singles[first] is Err);
                assert forall|j: int| 0 <= j < first implies #[trigger] singles[j] is Ok by {
                    assert(is_payable(network, recipients[j]));
                    assert(recipient_plan_is(singles[j], network, recipients[j]));
                }
                assert forall|i: int|
                    0 <= i < singles.len() && #[trigger] singles[i] is Err && (forall|j: int|
                        0 <= j < i ==> #[trigger] singles[j] is Ok) implies failure_text(f)
                    == failure_text(singles[i]->Err_0) by {
                    if i < first {
                        assert(singles[i] is Ok);
                    } else if first < i {
                        assert(singles[first] is Ok);
                    }
                }
            },
        }
    }
}

/// What two lists of payments come to together is what they come to one after
/// the other; one payment comes to its amount, or to nothing where it has none.
pub proof fn law_totals_are_sums(a: Seq<Option<u64>>, b: Seq<Option<u64>>, amount: u64)
    ensures
        total(a + b) == total(a) + total(b),
        total(seq![Some(amount)]) == amount,
        total(seq![None]) == 0,
        total(Seq::empty()) == 0,
    decreases b.len(),
{
    reveal_with_fuel(total, 2);
    assert(seq![Some(amount)].drop_last() =~= Seq::<Option<u64>>::empty());
    assert(seq![None::<u64>].drop_last() =~= Seq::<Option<u64>>::empty());
    if b.len() == 0 {
        assert(a + b =~= a);
    } else {
        law_totals_are_sums(a, b.drop_last(), amount);
        assert((a + b).drop_last() =~= a + b.drop_last());
    }
}

/// What passed its checks is proposed once the wallet is open and has an
/// account, one or many; what did not is refused there with what is wrong with
/// it. A wallet without accounts is refused before that.
pub proof fn law_a_checked_send_is_proposed(plan: Result<SendPlan, Failure>, count: usize)
    ensures
        ({
            let opened = proposal_next(SendProposal::OpenWallet(plan), ProposeEvent::Finished);
            let listed = proposal_next(opened, ProposeEvent::Accounts(count));
            &&& opened == SendProposal::ListAccounts(plan)
            &&& count >= 1 && plan is Ok ==> listed == SendProposal::Propose(plan->Ok_0)
            &&& count >= 1 && plan is Err ==> listed == SendProposal::Failed(plan->Err_0)
            &&& count == 0 ==> listed is Failed && failure_text(listed->Failed_0)
                == "No accounts"@
        }),
{
}

/// A step of a proposal that fails ends it with what the step said, and a
/// failure is final. A proposal that was made stays the one to be kept.
pub proof fn law_a_failed_proposal_says_why(s: SendProposal, text: String, event: ProposeEvent)
    ensures
        ({
            let q = proposal_next(s, ProposeEvent::Failed(text));
            &&& s is OpenWallet || s is ListAccounts ==> q is Failed && failure_text(q->Failed_0)
                == text@
            &&& s is Propose ==> q is Failed && failure_text(q->Failed_0) == "Proposal failed: "@
                + text@
        }),
        s is Failed ==> proposal_next(s, event) == s,
        s is OpenWallet && !(event is Finished) && !(event is Failed) ==> proposal_next(s, event)
            == s,
        s is ListAccounts && !(event is Accounts) && !(event is Failed) ==> proposal_next(s, event)
            == s,
        s is Propose && !(event is Failed) ==> proposal_next(s, event) == s,
{
}

/// The most that can be sent to an address is asked of a wallet that is open and
/// has an account, one or many, and is what the proposal to send everything comes
/// to. A wrong address comes to light once there is an account.
pub proof fn law_the_most_is_found(address: Result<String, Failure>, count: usize, sent: u64)
    ensures
        ({
            let opened = query_next(MaxQuery::OpenWallet(address), ProposeEvent::Finished);
            let listed = query_next(opened, ProposeEvent::Accounts(count));
            &&& opened == MaxQuery::ListAccounts(address)
            &&& count >= 1 && address is Ok ==> {
                &&& listed == MaxQuery::Propose(address->Ok_0)
                &&& query_next(listed, ProposeEvent::Proposed(sent)) == MaxQuery::Done(Ok(sent))
            }
            &&& count >= 1 && address is Err ==> listed == MaxQuery::Done(Err(address->Err_0))
            &&& count == 0 ==> {
                &&& listed is Done
                &&& listed->Done_0 is Err
                &&& failure_text(listed->Done_0->Err_0) == "No accounts"@
            }
        }),
{
}

/// Where everything cannot be proposed because the money is insufficient,
/// wherever the words say so, the most that can be sent is 0.
pub proof fn law_insufficient_money_is_none(address: String, text: String)
    ensures
        (exists|head: Seq<char>, tail: Seq<char>|
            text@ == #[trigger] (head + "InsufficientFunds"@ + tail)) <==> query_next(
            MaxQuery::Propose(address),
            ProposeEvent::Failed(text),
        ) == MaxQuery::Done(Ok(0)),
        !(exists|head: Seq<char>, tail: Seq<char>|
            text@ == #[trigger] (head + "InsufficientFunds"@ + tail)) ==> {
            let q = query_next(MaxQuery::Propose(address), ProposeEvent::Failed(text));
            &&& q is Done
            &&& q->Done_0 is Err
            &&& failure_text(q->Done_0->Err_0) == "Proposal error: "@ + text@
        },
{
    if exists|head: Seq<char>, tail: Seq<char>|
        text@ == #[trigger] (head + "InsufficientFunds"@ + tail) {
        let (head, tail) = choose|head: Seq<char>, tail: Seq<char>|
            text@ == #[trigger] (head + "InsufficientFunds"@ + tail);
        crate::text::law_a_text_occurs_where_it_stands(head, "InsufficientFunds"@, tail);
    }
    if crate::text::occurs(text@, "InsufficientFunds"@) {
        crate::text::law_what_occurs_can_be_cut_out(text@, "InsufficientFunds"@);
    }
}

/// A step of the query that fails before everything is proposed ends it with
/// what the step said.
pub proof fn law_a_failed_query_says_why(s: MaxQuery, text: String, event: ProposeEvent)
    ensures
        s is OpenWallet || s is ListAccounts ==> {
            let q = query_next(s, ProposeEvent::Failed(text));
            &&& q is Done
            &&& q->Done_0 is Err
            &&& failure_text(q->Done_0->Err_0) == text@
        },
        s is OpenWallet && !(event is Finished) && !(event is Failed) ==> query_next(s, event) == s,
        s is ListAccounts && !(event is Accounts) && !(event is Failed) ==> query_next(s, event)
            == s,
        s is Propose && !(event is Proposed) && !(event is Failed) ==> query_next(s, event) == s,
{
}

/// What is reported of a proposal is exact: the amount that was asked for,
/// whatever the payments come to, or, where everything is sent, what they come to;
/// and the fee as it is.
pub proof fn law_the_report_is_exact(plan: SendPlan, sent: u64, other: u64, fee: u64)
    ensures
        plan.amount is Some ==> report_of(plan, sent, fee) == (plan.amount->0, fee, true),
        plan.amount is Some ==> report_of(plan, sent, fee) == report_of(plan, other, fee),
        plan.amount is None ==> report_of(plan, sent, fee) == (sent, fee, true),
{
}

/// A send is proposed, and the most that can be sent is asked for, wherever there
/// is an engine, on the network of the engine. A wrong address is no reason not to
/// start: it is reported later.
pub proof fn law_an_engine_is_all_it_takes_to_start(
    proposed: Result<SendProposal, Failure>,
    asked: Result<MaxQuery, Failure>,
    engine: Option<ZipherEngine>,
    address: Seq<char>,
    amount: u64,
    memo: Option<String>,
    is_max: bool,
)
    requires
        proposal_start_is(proposed, engine, address, amount, memo, is_max),
        query_start_is(asked, engine, address),
    ensures
        engine is None ==> {
            &&& proposed is Err && failure_text(proposed->Err_0) == "Engine not initialized"@
            &&& asked is Err && failure_text(asked->Err_0) == "Engine not initialized"@
        },
        engine is Some ==> {
            &&& proposed is Ok && proposed->Ok_0 is OpenWallet
            &&& send_plan_is(
                proposed->Ok_0->OpenWallet_0,
                engine->0.params,
                address,
                amount,
                memo,
                is_max,
            )
            &&& asked is Ok && asked->Ok_0 is OpenWallet
            &&& address_fault(address) is None ==> asked->Ok_0->OpenWallet_0 is Ok
                && asked->Ok_0->OpenWallet_0->Ok_0@ == address
            &&& address_fault(address) is Some ==> asked->Ok_0->OpenWallet_0 is Err && failure_text(
                asked->Ok_0->OpenWallet_0->Err_0,
            ) == "Invalid address: "@ + address_fault(address)->0
        },
{
}

/// A query asks about the address that it was started for, or carries what is
/// wrong with it.
pub proof fn law_a_query_is_about_its_address(
    r: MaxQuery,
    address: Seq<char>,
    checked: Result<(), String>,
)
    requires
        is_query_for(r, address, checked),
    ensures
        r is OpenWallet,
        checked is Ok ==> r->OpenWallet_0 is Ok && r->OpenWallet_0->Ok_0@ == address,
        checked is Err ==> r->OpenWallet_0 is Err && failure_text(r->OpenWallet_0->Err_0)
            == "Invalid address: "@ + checked->Err_0@,
{
}

} // verus!
