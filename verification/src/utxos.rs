//! The transparent outputs of the wallet: which addresses the server is asked
//! about, and which of its answers are stored.
use vstd::prelude::*;

use crate::engine::Network;
use crate::external::{
    encode_receiver, is_wallet_output, pays_to_hash, receiver_text, zatoshis_from_i64, Receiver,
    MAX_MONEY,
};
use crate::text::joined;

verus! {

// ---------------------------------------------------------------------------
// What is asked
// ---------------------------------------------------------------------------

/// A request for the unspent outputs of some addresses.
#[derive(Debug)]
pub struct UtxoRequest {
    pub addresses: Vec<String>,
    pub start_height: u64,
    /// How many outputs may come; 0 means all.
    pub max_entries: u32,
}

/// The address of a receiver.
pub open spec fn address_of(network: Network, receiver: Receiver) -> Seq<char> {
    match receiver {
        Receiver::PublicKeyHash(hash) => receiver_text(network, false, hash@),
        Receiver::ScriptHash(hash) => receiver_text(network, true, hash@),
    }
}

/// The request is for all outputs of the receivers from a height on.
pub open spec fn asks_for(
    r: UtxoRequest,
    network: Network,
    receivers: Seq<Receiver>,
    start: u32,
) -> bool {
    &&& r.addresses@.len() == receivers.len()
    &&& forall|i: int|
        0 <= i < receivers.len() ==> (#[trigger] r.addresses@[i])@ == address_of(
            network,
            receivers[i],
        )
    &&& r.start_height == start
    &&& r.max_entries == 0
}

/// The request for all outputs of the receivers from a height on.
pub fn utxo_request(network: Network, receivers: &Vec<Receiver>, start: u32) -> (r: UtxoRequest)
    ensures
        asks_for(r, network, receivers@, start),
{
    let mut addresses: Vec<String> = Vec::new();
    for i in 0..receivers.len()
        invariant
            addresses@.len() == i,
            forall|j: int|
                0 <= j < i ==> (#[trigger] addresses@[j])@ == address_of(network, receivers@[j]),
    {
        addresses.push(encode_receiver(network, &receivers[i]));
    }
    UtxoRequest { addresses, start_height: start as u64, max_entries: 0 }
}

// ---------------------------------------------------------------------------
// What comes back
// ---------------------------------------------------------------------------

/// An unspent output as the server sends it.
#[derive(Debug)]
pub struct UtxoReply {
    pub txid: Vec<u8>,
    pub index: i32,
    pub value: i64,
    pub script: Vec<u8>,
    pub height: u64,
}

/// An unspent output that the wallet stores.
#[derive(Debug)]
pub struct UtxoOutput {
    pub txid: [u8; 32],
    pub index: u32,
    pub value: u64,
    pub script: Vec<u8>,
    pub height: u32,
}

/// Every part of the reply is in its range.
pub open spec fn is_in_range(reply: UtxoReply) -> bool {
    &&& reply.txid@.len() == 32
    &&& reply.index >= 0
    &&& 0 <= reply.value <= MAX_MONEY
    &&& reply.height <= u32::MAX
}

/// Every part of the reply is in its range, and the wallet can tell who the
/// output belongs to.
pub open spec fn is_acceptable(reply: UtxoReply) -> bool {
    is_in_range(reply) && pays_to_hash(reply.script@)
}

/// The output has the parts of the reply.
pub open spec fn is_output_of(output: UtxoOutput, reply: UtxoReply) -> bool {
    &&& output.txid@ == reply.txid@
    &&& output.index == reply.index
    &&& output.value == reply.value
    &&& output.script@ == reply.script@
    &&& output.height == reply.height
}

/// The replies that are acceptable, in order.
pub open spec fn acceptable(replies: Seq<UtxoReply>) -> Seq<UtxoReply> {
    replies.filter(|reply: UtxoReply| is_acceptable(reply))
}

/// The outputs are those of the acceptable replies, in order.
pub open spec fn are_outputs_of(outputs: Seq<UtxoOutput>, replies: Seq<UtxoReply>) -> bool {
    &&& outputs.len() == acceptable(replies).len()
    &&& forall|i: int|
        0 <= i < outputs.len() ==> is_output_of(#[trigger] outputs[i], acceptable(replies)[i])
}

fn txid_of(bytes: &Vec<u8>) -> (r: Option<[u8; 32]>)
    ensures
        match r {
            Some(txid) => txid@ == bytes@,
            None => bytes@.len() != 32,
        },
{
    if bytes.len() != 32 {
        return None;
    }
    let mut txid: [u8; 32] = [0u8; 32];
    let mut i: usize = 0;
    while i < 32
        invariant
            i <= 32,
            bytes@.len() == 32,
            forall|j: int| 0 <= j < i ==> txid@[j] == bytes@[j],
        decreases 32 - i,
    {
        txid[i] = bytes[i];
        i = i + 1;
    }
    assert(txid@ =~= bytes@);
    Some(txid)
}

/// The output of a reply, where every part of the reply is in its range.
pub fn parse_utxo(reply: &UtxoReply) -> (r: Option<UtxoOutput>)
    ensures
        match r {
            Some(output) => is_in_range(*reply) && is_output_of(output, *reply),
            None => !is_in_range(*reply),
        },
{
    let txid = match txid_of(&reply.txid) {
        Some(txid) => txid,
        None => return None,
    };
    if reply.index < 0 {
        return None;
    }
    let index: u32 = reply.index as u32;
    let value: u64 = match zatoshis_from_i64(reply.value) {
        Some(value) => value,
        None => return None,
    };
    if reply.height > u32::MAX as u64 {
        return None;
    }
    let height: u32 = reply.height as u32;
    let script = reply.script.clone();
    assert(script@ =~= reply.script@);
    Some(UtxoOutput { txid, index, value, script, height })
}

/// The output of a reply, where the reply is acceptable.
pub fn accept_utxo(reply: &UtxoReply) -> (r: Option<UtxoOutput>)
    ensures
        match r {
            Some(output) => is_acceptable(*reply) && is_output_of(output, *reply),
            None => !is_acceptable(*reply),
        },
{
    match parse_utxo(reply) {
        None => None,
        Some(o) => {
            if is_wallet_output(&o.txid, o.index, o.value, &o.script, o.height) {
                Some(o)
            } else {
                None
            }
        },
    }
}

/// The outputs of the acceptable replies; the others are passed over.
pub fn accept_utxos(replies: &Vec<UtxoReply>) -> (r: Vec<UtxoOutput>)
    ensures
        are_outputs_of(r@, replies@),
{
    let mut outputs: Vec<UtxoOutput> = Vec::new();
    proof {
        reveal(Seq::filter);
        assert(replies@.take(0) =~= Seq::<UtxoReply>::empty());
    }
    for i in 0..replies.len()
        invariant
            are_outputs_of(outputs@, replies@.take(i as int)),
    {
        proof {
            reveal(Seq::filter);
            assert(replies@.take(i + 1).drop_last() =~= replies@.take(i as int));
            assert(replies@.take(i + 1).last() == replies@[i as int]);
        }
        if let Some(output) = accept_utxo(&replies[i]) {
            outputs.push(output);
        }
    }
    assert(replies@.take(replies@.len() as int) =~= replies@);
    outputs
}

// ---------------------------------------------------------------------------
// Refreshing the outputs of every account
// ---------------------------------------------------------------------------

/// A call whose failure ends the refresh.
#[derive(Clone, Copy, Debug, PartialEq, Eq, Structural)]
pub enum UtxoCall {
    AccountIds,
    QueryHeight,
    TransparentReceivers,
    AddressUtxos,
    PutUtxo,
}

/// Why the refresh ended early.
#[derive(Debug)]
pub struct UtxoError {
    pub call: UtxoCall,
    pub text: String,
}

/// What stands before the words of a failed call.
pub open spec fn utxo_prefix(call: UtxoCall) -> Seq<char> {
    match call {
        UtxoCall::AccountIds => "get_account_ids: "@,
        UtxoCall::QueryHeight => "utxo_query_height: "@,
        UtxoCall::TransparentReceivers => "get_transparent_receivers: "@,
        UtxoCall::AddressUtxos => "get_address_utxos: "@,
        UtxoCall::PutUtxo => "put_received_transparent_utxo: "@,
    }
}

impl UtxoError {
    /// The error in words.
    pub fn message(&self) -> (r: String)
        ensures
            r@ == utxo_prefix(self.call) + self.text@,
    {
        let prefix = match self.call {
            UtxoCall::AccountIds => "get_account_ids: ",
            UtxoCall::QueryHeight => "utxo_query_height: ",
            UtxoCall::TransparentReceivers => "get_transparent_receivers: ",
            UtxoCall::AddressUtxos => "get_address_utxos: ",
            UtxoCall::PutUtxo => "put_received_transparent_utxo: ",
        };
        joined(prefix, self.text.as_str())
    }
}

/// What the refresh waits for.
#[derive(Debug)]
pub enum RefreshStage {
    /// List the accounts of the wallet.
    ListAccounts,
    /// Ask the wallet from which height on to look for outputs of the account
    /// at this position.
    QueryHeight(usize),
    /// List the transparent receivers of the account; the height is the one to
    /// look from.
    ListReceivers(usize, u32),
    /// Ask the server for the outputs of the receivers.
    Fetch(usize, u32, Vec<Receiver>),
    /// Store the outputs of the acceptable replies.
    Store(usize, Vec<UtxoReply>),
    /// Finished.
    Done(Result<(), UtxoError>),
}

/// The refresh of the transparent outputs, account by account.
#[derive(Debug)]
pub struct UtxoRefresh {
    /// How many accounts there are.
    pub accounts: usize,
    pub stage: RefreshStage,
}

/// What came of the step that the refresh waited for.
#[derive(Debug)]
pub enum RefreshEvent {
    /// How many accounts there are.
    Accounts(usize),
    /// The height from which on to look for outputs.
    Height(u32),
    /// The transparent receivers of the account.
    Receivers(Vec<Receiver>),
    /// What the server sent.
    Replies(Vec<UtxoReply>),
    /// The outputs are stored.
    Stored,
    /// The step failed.
    Failed(String),
}

/// The call that a stage makes.
pub open spec fn stage_call(stage: RefreshStage) -> UtxoCall {
    match stage {
        RefreshStage::ListAccounts => UtxoCall::AccountIds,
        RefreshStage::QueryHeight(_) => UtxoCall::QueryHeight,
        RefreshStage::ListReceivers(_, _) => UtxoCall::TransparentReceivers,
        RefreshStage::Fetch(_, _, _) => UtxoCall::AddressUtxos,
        _ => UtxoCall::PutUtxo,
    }
}

/// At the account at position `at`, or at the end behind the last one.
pub open spec fn at_account(accounts: usize, at: int) -> UtxoRefresh {
    UtxoRefresh {
        accounts,
        stage: if at < accounts {
            RefreshStage::QueryHeight(at as usize)
        } else {
            RefreshStage::Done(Ok(()))
        },
    }
}

/// The refresh after `event`; an event that it does not wait for changes
/// nothing.
pub open spec fn refresh_next(s: UtxoRefresh, event: RefreshEvent) -> UtxoRefresh {
    match (s.stage, event) {
        (RefreshStage::Done(_), _) => s,
        (stage, RefreshEvent::Failed(text)) => UtxoRefresh {
            stage: RefreshStage::Done(Err(UtxoError { call: stage_call(stage), text })),
            ..s
        },
        (RefreshStage::ListAccounts, RefreshEvent::Accounts(count)) => at_account(count, 0),
        (RefreshStage::QueryHeight(at), RefreshEvent::Height(height)) => UtxoRefresh {
            stage: RefreshStage::ListReceivers(at, height),
            ..s
        },
        (
            RefreshStage::ListReceivers(at, height),
            RefreshEvent::Receivers(receivers),
        ) => if receivers@.len() == 0 {
            at_account(s.accounts, at + 1)
        } else {
            UtxoRefresh { stage: RefreshStage::Fetch(at, height, receivers), ..s }
        },
        (RefreshStage::Fetch(at, _, _), RefreshEvent::Replies(replies)) => UtxoRefresh {
            stage: RefreshStage::Store(at, replies),
            ..s
        },
        (RefreshStage::Store(at, _), RefreshEvent::Stored) => at_account(s.accounts, at + 1),
        _ => s,
    }
}

/// Starts a refresh.
pub fn refresh_transparent_utxos() -> (r: UtxoRefresh)
    ensures
        r == (UtxoRefresh { accounts: 0, stage: RefreshStage::ListAccounts }),
        r.wf(),
{
    UtxoRefresh { accounts: 0, stage: RefreshStage::ListAccounts }
}

impl UtxoRefresh {
    /// The account that is being refreshed is one of the accounts, and one
    /// without receivers is not asked about.
    pub open spec fn wf(&self) -> bool {
        match self.stage {
            RefreshStage::QueryHeight(at)
            | RefreshStage::ListReceivers(at, _)
            | RefreshStage::Store(at, _) => at < self.accounts,
            RefreshStage::Fetch(at, _, receivers) => at < self.accounts && receivers@.len() > 0,
            _ => true,
        }
    }

    fn next_account(accounts: usize, at: usize) -> (r: UtxoRefresh)
        ensures
            r == at_account(accounts, at + 1),
            r.wf(),
    {
        if at < accounts && accounts - at > 1 {
            UtxoRefresh { accounts, stage: RefreshStage::QueryHeight(at + 1) }
        } else {
            UtxoRefresh { accounts, stage: RefreshStage::Done(Ok(())) }
        }
    }

    /// Goes on with what came of the step that the refresh waited for.
    pub fn step(self, event: RefreshEvent) -> (r: UtxoRefresh)
        ensures
            r == refresh_next(self, event),
            self.wf() ==> r.wf(),
    {
        let UtxoRefresh { accounts, stage } = self;
        let next = match (stage, event) {
            (RefreshStage::Done(r), _) => RefreshStage::Done(r),
            (stage, RefreshEvent::Failed(text)) => {
                let call = match &stage {
                    RefreshStage::ListAccounts => UtxoCall::AccountIds,
                    RefreshStage::QueryHeight(_) => UtxoCall::QueryHeight,
                    RefreshStage::ListReceivers(_, _) => UtxoCall::TransparentReceivers,
                    RefreshStage::Fetch(_, _, _) => UtxoCall::AddressUtxos,
                    _ => UtxoCall::PutUtxo,
                };
                RefreshStage::Done(Err(UtxoError { call, text }))
            },
            (RefreshStage::ListAccounts, RefreshEvent::Accounts(count)) => {
                let stage = if count > 0 {
                    RefreshStage::QueryHeight(0)
                } else {
                    RefreshStage::Done(Ok(()))
                };
                return UtxoRefresh { accounts: count, stage };
            },
            (
                RefreshStage::QueryHeight(at),
                RefreshEvent::Height(height),
            ) => RefreshStage::ListReceivers(at, height),
            (RefreshStage::ListReceivers(at, height), RefreshEvent::Receivers(receivers)) => {
                if receivers.len() == 0 {
                    return UtxoRefresh::next_account(accounts, at);
                }
                RefreshStage::Fetch(at, height, receivers)
            },
            (RefreshStage::Fetch(at, _, _), RefreshEvent::Replies(replies)) => RefreshStage::Store(
                at,
                replies,
            ),
            (RefreshStage::Store(at, _), RefreshEvent::Stored) => {
                return UtxoRefresh::next_account(accounts, at);
            },
            (other, _) => other,
        };
        UtxoRefresh { accounts, stage: next }
    }
}

// ---------------------------------------------------------------------------
// Laws
// ---------------------------------------------------------------------------

/// The position of the account that is being refreshed.
pub open spec fn position(s: UtxoRefresh) -> int {
    match s.stage {
        RefreshStage::ListAccounts => -1,
        RefreshStage::QueryHeight(at)
        | RefreshStage::ListReceivers(at, _)
        | RefreshStage::Fetch(at, _, _)
        | RefreshStage::Store(at, _) => at as int,
        RefreshStage::Done(_) => s.accounts as int,
    }
}

/// The accounts have their turns in order, none is passed over, and the refresh
/// reports success only behind the last of them.
pub proof fn law_every_account_has_its_turn(s: UtxoRefresh, event: RefreshEvent)
    requires
        s.wf(),
    ensures
        ({
            let q = refresh_next(s, event);
            &&& !(q.stage is Done) ==> position(s) <= position(q) <= position(s) + 1
            &&& q.stage == RefreshStage::Done(Ok(())) ==> {
                ||| s.stage == RefreshStage::Done(Ok(()))
                ||| s.stage is ListAccounts && event == RefreshEvent::Accounts(0)
                ||| position(s) + 1 == s.accounts
            }
            &&& s.stage is Done ==> q == s
        }),
{
}

/// What is stored of an account is what the server sent of it.
pub proof fn law_replies_are_stored_as_they_came(s: UtxoRefresh, event: RefreshEvent)
    ensures
        refresh_next(s, event).stage matches RefreshStage::Store(at, replies) ==> {
            ||| s.stage == RefreshStage::Store(at, replies)
            ||| {
                &&& s.stage is Fetch
                &&& position(s) == at
                &&& event == RefreshEvent::Replies(replies)
            }
        },
{
}

/// A reply is stored exactly where its transaction id has 32 bytes, its index is
/// not negative, its value is one that money can have, its height fits in 32 bits,
/// and its script pays to a public key hash or to a script hash.
pub proof fn law_which_replies_are_stored(reply: UtxoReply)
    ensures
        is_in_range(reply) <==> {
            &&& reply.txid@.len() == 32
            &&& reply.index > -1
            &&& reply.value > -1
            &&& reply.value < 2_100_000_000_000_001
            &&& reply.height < 0x1_0000_0000
        },
        is_acceptable(reply) <==> is_in_range(reply) && ({
            let s = reply.script@;
            let to_key = s.len() == 25 && s.take(3) == seq![0x76u8, 0xa9u8, 0x14u8] && s.skip(23)
                == seq![0x88u8, 0xacu8];
            let to_script = s.len() == 23 && s.take(2) == seq![0xa9u8, 0x14u8] && s.skip(22)
                == seq![0x87u8];
            to_key || to_script
        }),
{
    let s = reply.script@;
    if s.len() == 25 {
        if pays_to_hash(s) {
            assert(s.take(3) =~= seq![0x76u8, 0xa9u8, 0x14u8]);
            assert(s.skip(23) =~= seq![0x88u8, 0xacu8]);
        } else if s.take(3) == seq![0x76u8, 0xa9u8, 0x14u8] && s.skip(23) == seq![0x88u8, 0xacu8] {
            assert(s.take(3)[0] == s[0] && s.take(3)[1] == s[1] && s.take(3)[2] == s[2]);
            assert(s.skip(23)[0] == s[23] && s.skip(23)[1] == s[24]);
        }
    } else if s.len() == 23 {
        if pays_to_hash(s) {
            assert(s.take(2) =~= seq![0xa9u8, 0x14u8]);
            assert(s.skip(22) =~= seq![0x87u8]);
        } else if s.take(2) == seq![0xa9u8, 0x14u8] && s.skip(22) == seq![0x87u8] {
            assert(s.take(2)[0] == s[0] && s.take(2)[1] == s[1]);
            assert(s.skip(22)[0] == s[22]);
        }
    }
}

/// Replies are judged one by one: what is acceptable of two lists is what is
/// acceptable of the one, followed by what is acceptable of the other.
pub proof fn law_replies_are_judged_one_by_one(
    a: Seq<UtxoReply>,
    b: Seq<UtxoReply>,
    reply: UtxoReply,
)
    ensures
        acceptable(a + b) == acceptable(a) + acceptable(b),
        is_acceptable(reply) ==> acceptable(seq![reply]) == seq![reply],
        !is_acceptable(reply) ==> acceptable(seq![reply]).len() == 0,
    decreases b.len(),
{
    reveal(Seq::filter);
    let keep = |r: UtxoReply| is_acceptable(r);
    let one = seq![reply];
    assert(one.drop_last() =~= Seq::<UtxoReply>::empty());
    assert(one.drop_last().filter(keep) =~= Seq::<UtxoReply>::empty());
    assert(one.filter(keep) =~= if keep(reply) {
        one
    } else {
        Seq::empty()
    });
    if b.len() == 0 {
        assert(a + b =~= a);
        assert(acceptable(a) + acceptable(b) =~= acceptable(a));
    } else {
        law_replies_are_judged_one_by_one(a, b.drop_last(), reply);
        assert((a + b).drop_last() =~= a + b.drop_last());
        assert((a + b).last() == b.last());
        assert(acceptable(a + b) =~= acceptable(a) + acceptable(b));
    }
}

/// What is stored of one reply is that reply, every part of it unchanged, or
/// nothing.
pub proof fn law_an_output_is_its_reply(outputs: Seq<UtxoOutput>, reply: UtxoReply)
    requires
        are_outputs_of(outputs, seq![reply]),
    ensures
        is_acceptable(reply) ==> {
            &&& outputs.len() == 1
            &&& outputs[0].txid@ == reply.txid@
            &&& outputs[0].index == reply.index
            &&& outputs[0].value == reply.value
            &&& outputs[0].script@ == reply.script@
            &&& outputs[0].height == reply.height
        },
        !is_acceptable(reply) ==> outputs.len() == 0,
{
    law_replies_are_judged_one_by_one(Seq::empty(), Seq::empty(), reply);
    if is_acceptable(reply) {
        assert(outputs.len() == 1);
        assert(is_output_of(outputs[0], acceptable(seq![reply])[0]));
    }
}

/// The outputs of two lists of replies are those of the one, followed by those of
/// the other, and no reply has two outcomes.
pub proof fn law_outputs_come_in_the_order_of_their_replies(
    all: Seq<UtxoOutput>,
    xs: Seq<UtxoOutput>,
    ys: Seq<UtxoOutput>,
    a: Seq<UtxoReply>,
    b: Seq<UtxoReply>,
    i: int,
)
    requires
        are_outputs_of(all, a + b),
        are_outputs_of(xs, a),
        are_outputs_of(ys, b),
        0 <= i < all.len(),
    ensures
        all.len() == xs.len() + ys.len(),
        ({
            let same = if i < xs.len() {
                xs[i]
            } else {
                ys[i - xs.len()]
            };
            &&& all[i].txid@ == same.txid@
            &&& all[i].index == same.index
            &&& all[i].value == same.value
            &&& all[i].script@ == same.script@
            &&& all[i].height == same.height
        }),
{
    let any = (a + b);
    if any.len() > 0 {
        law_replies_are_judged_one_by_one(a, b, any[0]);
    } else {
        assert(a + b =~= Seq::<UtxoReply>::empty());
        reveal(Seq::filter);
        assert(acceptable(a + b).len() == 0);
    }
    assert(is_output_of(all[i], acceptable(a + b)[i]));
    if i < xs.len() {
        assert(is_output_of(xs[i], acceptable(a)[i]));
    } else {
        assert(is_output_of(ys[i - xs.len()], acceptable(b)[i - xs.len()]));
    }
}

/// The address of a receiver says which kind of hash it is.
pub proof fn law_an_address_keeps_the_kind_of_hash(network: Network, hash: [u8; 20])
    ensures
        address_of(network, Receiver::PublicKeyHash(hash)) == receiver_text(network, false, hash@),
        address_of(network, Receiver::ScriptHash(hash)) == receiver_text(network, true, hash@),
{
}

/// An account goes its way: the wallet says from which height on, its receivers
/// are listed, the server is asked for exactly these from exactly that height, and
/// what it sent is stored. One receiver is enough to ask; without one the next
/// account has its turn.
pub proof fn law_an_account_is_refreshed(
    s: UtxoRefresh,
    at: usize,
    height: u32,
    receivers: Vec<Receiver>,
    replies: Vec<UtxoReply>,
)
    requires
        s.stage == RefreshStage::QueryHeight(at),
        at < s.accounts,
    ensures
        ({
            let asked = refresh_next(s, RefreshEvent::Height(height));
            let listed = refresh_next(asked, RefreshEvent::Receivers(receivers));
            let fetched = refresh_next(listed, RefreshEvent::Replies(replies));
            let stored = refresh_next(fetched, RefreshEvent::Stored);
            let last = if receivers@.len() >= 1 {
                stored
            } else {
                listed
            };
            &&& asked.stage == RefreshStage::ListReceivers(at, height)
            &&& receivers@.len() >= 1 ==> {
                &&& listed.stage == RefreshStage::Fetch(at, height, receivers)
                &&& fetched.stage == RefreshStage::Store(at, replies)
            }
            &&& at + 1 < s.accounts ==> last.stage is QueryHeight && last.stage->QueryHeight_0 == at
                + 1
            &&& at + 1 == s.accounts ==> last.stage == RefreshStage::Done(Ok(()))
            &&& asked.accounts == s.accounts
            &&& listed.accounts == s.accounts
            &&& last.accounts == s.accounts
        }),
{
}

/// A refresh starts at the first account, where there is one.
pub proof fn law_a_refresh_starts_at_the_first_account(s: UtxoRefresh, count: usize)
    requires
        s.stage is ListAccounts,
    ensures
        ({
            let q = refresh_next(s, RefreshEvent::Accounts(count));
            &&& q.accounts == count
            &&& count >= 1 ==> q.stage == RefreshStage::QueryHeight(0)
            &&& count == 0 ==> q.stage == RefreshStage::Done(Ok(()))
        }),
{
}

/// A call that fails ends the refresh, with its words behind the name of the
/// call.
pub proof fn law_a_failed_call_ends_the_refresh(s: UtxoRefresh, text: String)
    requires
        !(s.stage is Done),
    ensures
        ({
            let q = refresh_next(s, RefreshEvent::Failed(text));
            let told = utxo_prefix(q.stage->Done_0->Err_0.call) + q.stage->Done_0->Err_0.text@;
            &&& q.stage is Done
            &&& q.stage->Done_0 is Err
            &&& s.stage is ListAccounts ==> told == "get_account_ids: "@ + text@
            &&& s.stage is QueryHeight ==> told == "utxo_query_height: "@ + text@
            &&& s.stage is ListReceivers ==> told == "get_transparent_receivers: "@ + text@
            &&& s.stage is Fetch ==> told == "get_address_utxos: "@ + text@
            &&& s.stage is Store ==> told == "put_received_transparent_utxo: "@ + text@
        }),
{
}

/// An answer counts only where its question was asked.
pub proof fn law_a_refresh_hears_only_what_it_asked(s: UtxoRefresh, event: RefreshEvent)
    requires
        event is Accounts ==> !(s.stage is ListAccounts),
        event is Height ==> !(s.stage is QueryHeight),
        event is Receivers ==> !(s.stage is ListReceivers),
        event is Replies ==> !(s.stage is Fetch),
        event is Stored ==> !(s.stage is Store),
        event is Failed ==> s.stage is Done,
    ensures
        refresh_next(s, event) == s,
{
}

/// The server is asked for every receiver, under its address and in order, from
/// the given height on, and for all outputs that there are.
pub proof fn law_every_receiver_is_asked_for(
    r: UtxoRequest,
    network: Network,
    receivers: Seq<Receiver>,
    start: u32,
    i: int,
)
    requires
        asks_for(r, network, receivers, start),
        0 <= i < receivers.len(),
    ensures
        r.addresses@.len() == receivers.len(),
        receivers[i] is PublicKeyHash ==> r.addresses@[i]@ == receiver_text(
            network,
            false,
            receivers[i]->PublicKeyHash_0@,
        ),
        receivers[i] is ScriptHash ==> r.addresses@[i]@ == receiver_text(
            network,
            true,
            receivers[i]->ScriptHash_0@,
        ),
        r.start_height == start,
        r.max_entries == 0,
{
    assert(r.addresses@[i]@ == address_of(network, receivers[i]));
}

} // verus!
