//! Sending money with a hardware device. The spending key never leaves the
//! device: the wallet makes an unsigned transaction, the device signs it, and
//! the wallet extracts and broadcasts what was signed.
use vstd::prelude::*;

use crate::engine::ZipherEngine;
use crate::external::{parse_pczt, parsed_pczt, serialize_pczt};
use crate::failure::{failure_text, Failure};
use crate::send::{after_take, take_pending_proposal, PendingSend};
use crate::spend::{is_started, started, Route, Spend, SpendStage};
use crate::text::{decimal, law_a_decimal_reads_back, number_of, push_decimal};

verus! {

/// What the device shows of a transaction before it signs.
#[derive(Debug)]
pub struct TxDetails {
    pub send_amount: u64,
    pub fee: u64,
    pub recipient: String,
    /// How many actions are signed; the device counts them itself.
    pub num_actions: usize,
    pub memo: Option<String>,
}

/// A pending proposal on its way to a device.
pub struct DeviceSend<P> {
    pub proposal: P,
    pub details: TxDetails,
    pub spend: Spend,
}

/// What comes of sending a pending proposal to a device.
pub open spec fn device_send_is<P>(
    r: Result<DeviceSend<P>, Failure>,
    proposal: Option<P>,
    engine: Option<ZipherEngine>,
    address: Seq<char>,
    send_amount: u64,
    fee: u64,
    memo: Option<String>,
) -> bool {
    match (proposal, engine) {
        (None, _) => r == Err::<DeviceSend<P>, Failure>(Failure::NoPendingProposal),
        (_, None) => r == Err::<DeviceSend<P>, Failure>(Failure::NotInitialized),
        (Some(proposal), Some(e)) => {
            &&& r matches Ok(d)
            &&& d.proposal == proposal
            &&& is_started(d.spend, Route::Device, e)
            &&& d.spend.key is None
            &&& d.details.send_amount == send_amount
            &&& d.details.fee == fee
            &&& d.details.recipient@ == address
            &&& d.details.num_actions == 0
            &&& d.details.memo == memo
        },
    }
}

/// Starts to carry out the pending proposal with a hardware device: no key of
/// the wallet takes part. The proposal is taken out, whatever comes of it.
pub fn confirm_send_hw<P>(
    pending: &mut PendingSend<P>,
    engine: &Option<ZipherEngine>,
    address: &str,
    send_amount: u64,
    fee: u64,
    memo: Option<String>,
) -> (r: Result<DeviceSend<P>, Failure>)
    ensures
        *final(pending) == after_take(*old(pending)),
        device_send_is(r, old(pending).proposal, *engine, address@, send_amount, fee, memo),
{
    let proposal = match take_pending_proposal(pending) {
        Some(p) => p,
        None => return Err(Failure::NoPendingProposal),
    };
    match engine {
        None => Err(Failure::NotInitialized),
        Some(e) => {
            let details = TxDetails {
                send_amount,
                fee,
                recipient: address.to_owned(),
                num_actions: 0,
                memo,
            };
            Ok(DeviceSend { proposal, details, spend: started(Route::Device, e, None) })
        },
    }
}

/// What comes of reading a transaction that a device handed back.
pub open spec fn signed_reads_as(r: Result<pczt::Pczt, Failure>, bytes: Seq<u8>) -> bool {
    match r {
        Ok(signed) => parsed_pczt(bytes) == Ok::<pczt::Pczt, Seq<char>>(signed),
        Err(Failure::ParsePczt(text)) => parsed_pczt(bytes) == Err::<pczt::Pczt, Seq<char>>(text@),
        Err(_) => false,
    }
}

/// The bytes of a transaction, as a device takes it.
pub fn write_unsigned(unsigned: &pczt::Pczt) -> (r: Vec<u8>)
    ensures
        parsed_pczt(r@) == Ok::<pczt::Pczt, Seq<char>>(*unsigned),
{
    serialize_pczt(unsigned)
}

/// Reads what the device signed.
pub fn read_signed(bytes: &Vec<u8>) -> (r: Result<pczt::Pczt, Failure>)
    ensures
        signed_reads_as(r, bytes@),
{
    match parse_pczt(bytes.as_slice()) {
        Ok(signed) => Ok(signed),
        Err(text) => Err(Failure::ParsePczt(text)),
    }
}

/// A transaction that goes to a device and comes back as it went reads as it
/// was.
pub proof fn law_an_untouched_transaction_reads_back(
    r: Result<pczt::Pczt, Failure>,
    bytes: Seq<u8>,
    unsigned: pczt::Pczt,
)
    requires
        parsed_pczt(bytes) == Ok::<pczt::Pczt, Seq<char>>(unsigned),
        signed_reads_as(r, bytes),
    ensures
        r == Ok::<pczt::Pczt, Failure>(unsigned),
{
}

/// The report of what the device signed.
pub open spec fn signed_text(actions: nat, inputs: nat) -> Seq<char> {
    "Hardware signed OK: "@ + decimal(actions) + " orchard action(s), "@ + decimal(inputs)
        + " transparent input(s)"@
}

/// Reports what the device signed.
pub fn signed_report(actions: u64, inputs: u64) -> (r: String)
    ensures
        r@ == signed_text(actions as nat, inputs as nat),
{
    let mut out = "Hardware signed OK: ".to_owned();
    push_decimal(&mut out, actions);
    out.append(" orchard action(s), ");
    push_decimal(&mut out, inputs);
    out.append(" transparent input(s)");
    out
}

/// The full viewing key that a device exported, or the failure to report.
pub fn export_fvk_from_device<K>(exported: Result<K, String>) -> (r: Result<K, Failure>)
    ensures
        match exported {
            Ok(key) => r == Ok::<K, Failure>(key),
            Err(text) => r == Err::<K, Failure>(Failure::FvkExport(text)),
        },
{
    match exported {
        Ok(key) => Ok(key),
        Err(text) => Err(Failure::FvkExport(text)),
    }
}

/// What a device handed back reads exactly where its bytes are a transaction,
/// and otherwise says why they are none.
pub proof fn law_unreadable_bytes_say_why(r: Result<pczt::Pczt, Failure>, bytes: Seq<u8>)
    requires
        signed_reads_as(r, bytes),
    ensures
        r is Ok <==> parsed_pczt(bytes) is Ok,
        r is Ok ==> r->Ok_0 == parsed_pczt(bytes)->Ok_0,
        r is Err ==> failure_text(r->Err_0) == "Parse signed PCZT failed: "@
            + parsed_pczt(bytes)->Err_0,
{
}

/// A proposal goes to a device where one is pending and the engine is there: the
/// device is shown what is sent, and no key of the wallet is on its way. What is
/// missing is reported, the proposal first.
pub proof fn law_a_pending_proposal_goes_to_the_device<P>(
    r: Result<DeviceSend<P>, Failure>,
    proposal: Option<P>,
    engine: Option<ZipherEngine>,
    address: Seq<char>,
    send_amount: u64,
    fee: u64,
    memo: Option<String>,
)
    requires
        device_send_is(r, proposal, engine, address, send_amount, fee, memo),
    ensures
        proposal is None ==> r is Err && failure_text(r->Err_0)
            == "No pending proposal \u{2014} call propose_send first"@,
        proposal is Some && engine is None ==> r is Err && failure_text(r->Err_0)
            == "Engine not initialized"@,
        proposal is Some && engine is Some ==> {
            &&& r is Ok
            &&& r->Ok_0.proposal == proposal->0
            &&& r->Ok_0.details.send_amount == send_amount
            &&& r->Ok_0.details.fee == fee
            &&& r->Ok_0.details.recipient@ == address
            &&& r->Ok_0.details.num_actions == 0
            &&& r->Ok_0.details.memo == memo
            &&& r->Ok_0.spend.route == Route::Device
            &&& r->Ok_0.spend.stage == SpendStage::OpenWallet
            &&& r->Ok_0.spend.server == engine->0.server_url
            &&& r->Ok_0.spend.key is None
            &&& r->Ok_0.spend.fault is None
        },
{
}

/// The report names both counts: its words stand around two numbers that read
/// back as what was signed.
pub proof fn law_the_report_names_both_counts(actions: nat, inputs: nat)
    ensures
        exists|a: Seq<char>, b: Seq<char>|
            {
                &&& signed_text(actions, inputs) == #[trigger] ("Hardware signed OK: "@ + a
                    + " orchard action(s), "@ + b + " transparent input(s)"@)
                &&& number_of(a) == actions
                &&& number_of(b) == inputs
            },
{
    law_a_decimal_reads_back(actions);
    law_a_decimal_reads_back(inputs);
    let a = decimal(actions);
    let b = decimal(inputs);
    assert(signed_text(actions, inputs) == "Hardware signed OK: "@ + a + " orchard action(s), "@ + b
        + " transparent input(s)"@);
}

} // verus!
