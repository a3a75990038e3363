//! Why an operation on the wallet's money was not carried out.
use vstd::prelude::*;

use crate::external::{debug_path, path_in_debug_form};
use crate::text::{
    decimal_int, joined, law_a_signed_decimal_reads_back, number_of, push_decimal_int,
};

verus! {

/// Why an operation on the wallet's money was not carried out.
#[derive(Debug)]
pub enum Failure {
    NotInitialized,
    NoPendingProposal,
    /// A failure reported in its own words.
    Plain(String),
    AccountIds(String),
    NoAccounts,
    NoAccountsInWallet,
    InvalidAddress(String),
    AddressConversion(String),
    Memo(String),
    InvalidAmount,
    /// A payment to nobody; the words are those that callers know it by.
    NoRecipients,
    Proposal(String),
    MaxProposal(String),
    SeedPhrase(String),
    KeyDerivation(String),
    NoDataDirectory,
    /// The directories that were searched.
    ParamsNotFound(Vec<String>),
    TransparentReceivers(String),
    NoTransparentReceivers,
    CreateTransaction(String),
    ShieldingProposal(String),
    CreateShielding(String),
    CreatePczt(String),
    HardwareSigning(String),
    ParsePczt(String),
    ExtractTransaction(String),
    GetTransaction(String),
    NotFoundAfterCreation,
    NotFoundAfterExtraction,
    SerializeTransaction(String),
    Broadcast(String),
    Rejected { code: i32, message: String },
    FvkExport(String),
}

/// The debug forms of the paths, with commas between them.
pub open spec fn listed(paths: Seq<String>) -> Seq<char>
    decreases paths.len(),
{
    if paths.len() == 0 {
        Seq::empty()
    } else if paths.len() == 1 {
        debug_path(paths[0]@)
    } else {
        listed(paths.drop_last()) + ", "@ + debug_path(paths.last()@)
    }
}

/// The failure in words.
pub open spec fn failure_text(f: Failure) -> Seq<char> {
    match f {
        Failure::NotInitialized => "Engine not initialized"@,
        Failure::NoPendingProposal => "No pending proposal \u{2014} call propose_send first"@,
        Failure::Plain(text) => text@,
        Failure::AccountIds(text) => "get_account_ids: "@ + text@,
        Failure::NoAccounts => "No accounts"@,
        Failure::NoAccountsInWallet => "No accounts in wallet"@,
        Failure::InvalidAddress(text) => "Invalid address: "@ + text@,
        Failure::AddressConversion(text) => "Address conversion: "@ + text@,
        Failure::Memo(text) => "Memo error: "@ + text@,
        Failure::InvalidAmount => "Invalid amount"@,
        Failure::NoRecipients => "Multi-recipient sends not yet implemented in the new engine"@,
        Failure::Proposal(text) => "Proposal failed: "@ + text@,
        Failure::MaxProposal(text) => "Proposal error: "@ + text@,
        Failure::SeedPhrase(text) => "Invalid seed phrase: "@ + text@,
        Failure::KeyDerivation(text) => "USK derivation: "@ + text@,
        Failure::NoDataDirectory => "Cannot determine data directory"@,
        Failure::ParamsNotFound(dirs) => "Sapling params not found. Searched ["@ + listed(dirs@)
            + "]."@,
        Failure::TransparentReceivers(text) => "get_transparent_receivers: "@ + text@,
        Failure::NoTransparentReceivers => "No transparent receivers found"@,
        Failure::CreateTransaction(text) => "Create tx failed: "@ + text@,
        Failure::ShieldingProposal(text) => "Shielding proposal failed: "@ + text@,
        Failure::CreateShielding(text) => "Create shielding tx failed: "@ + text@,
        Failure::CreatePczt(text) => "Create PCZT failed: "@ + text@,
        Failure::HardwareSigning(text) => "Hardware signing failed: "@ + text@,
        Failure::ParsePczt(text) => "Parse signed PCZT failed: "@ + text@,
        Failure::ExtractTransaction(text) => "Extract transaction failed: "@ + text@,
        Failure::GetTransaction(text) => "get_transaction: "@ + text@,
        Failure::NotFoundAfterCreation => "Transaction not found after creation"@,
        Failure::NotFoundAfterExtraction => "Transaction not found after extraction"@,
        Failure::SerializeTransaction(text) => "Serialize tx: "@ + text@,
        Failure::Broadcast(text) => "Broadcast failed: "@ + text@,
        Failure::Rejected { code, message } => "Broadcast rejected: "@ + message@ + " (code "@
            + decimal_int(code as int) + ")"@,
        Failure::FvkExport(text) => "FVK export failed: "@ + text@,
    }
}

fn list_paths(paths: &Vec<String>) -> (r: String)
    ensures
        r@ == listed(paths@),
{
    let mut out = String::new();
    assert(paths@.take(0) =~= Seq::<String>::empty());
    for i in 0..paths.len()
        invariant
            out@ == listed(paths@.take(i as int)),
    {
        let ghost before = out@;
        assert(paths@.take(i + 1).drop_last() =~= paths@.take(i as int));
        assert(paths@.take(i + 1).last() == paths@[i as int]);
        if i > 0 {
            out.append(", ");
        } else {
            assert(before =~= Seq::<char>::empty());
        }
        let shown = path_in_debug_form(paths[i].as_str());
        out.append(shown.as_str());
        assert(out@ =~= listed(paths@.take(i + 1)));
    }
    assert(paths@.take(paths@.len() as int) =~= paths@);
    out
}

impl Failure {
    /// The failure in words.
    pub fn message(&self) -> (r: String)
        ensures
            r@ == failure_text(*self),
    {
        match self {
            Failure::NotInitialized => "Engine not initialized".to_owned(),
            Failure::NoPendingProposal =>
                "No pending proposal \u{2014} call propose_send first".to_owned(),
            Failure::Plain(text) => text.clone(),
            Failure::AccountIds(text) => joined("get_account_ids: ", text.as_str()),
            Failure::NoAccounts => "No accounts".to_owned(),
            Failure::NoAccountsInWallet => "No accounts in wallet".to_owned(),
            Failure::InvalidAddress(text) => joined("Invalid address: ", text.as_str()),
            Failure::AddressConversion(text) => joined("Address conversion: ", text.as_str()),
            Failure::Memo(text) => joined("Memo error: ", text.as_str()),
            Failure::InvalidAmount => "Invalid amount".to_owned(),
            Failure::NoRecipients =>
                "Multi-recipient sends not yet implemented in the new engine".to_owned(),
            Failure::Proposal(text) => joined("Proposal failed: ", text.as_str()),
            Failure::MaxProposal(text) => joined("Proposal error: ", text.as_str()),
            Failure::SeedPhrase(text) => joined("Invalid seed phrase: ", text.as_str()),
            Failure::KeyDerivation(text) => joined("USK derivation: ", text.as_str()),
            Failure::NoDataDirectory => "Cannot determine data directory".to_owned(),
            Failure::ParamsNotFound(dirs) => {
                let list = list_paths(dirs);
                let mut out = joined("Sapling params not found. Searched [", list.as_str());
                out.append("].");
                out
            },
            Failure::TransparentReceivers(text) => joined(
                "get_transparent_receivers: ",
                text.as_str(),
            ),
            Failure::NoTransparentReceivers => "No transparent receivers found".to_owned(),
            Failure::CreateTransaction(text) => joined("Create tx failed: ", text.as_str()),
            Failure::ShieldingProposal(text) => joined(
                "Shielding proposal failed: ",
                text.as_str(),
            ),
            Failure::CreateShielding(text) => joined("Create shielding tx failed: ", text.as_str()),
            Failure::CreatePczt(text) => joined("Create PCZT failed: ", text.as_str()),
            Failure::HardwareSigning(text) => joined("Hardware signing failed: ", text.as_str()),
            Failure::ParsePczt(text) => joined("Parse signed PCZT failed: ", text.as_str()),
            Failure::ExtractTransaction(text) => joined(
                "Extract transaction failed: ",
                text.as_str(),
            ),
            Failure::GetTransaction(text) => joined("get_transaction: ", text.as_str()),
            Failure::NotFoundAfterCreation => "Transaction not found after creation".to_owned(),
            Failure::NotFoundAfterExtraction => "Transaction not found after extraction".to_owned(),
            Failure::SerializeTransaction(text) => joined("Serialize tx: ", text.as_str()),
            Failure::Broadcast(text) => joined("Broadcast failed: ", text.as_str()),
            Failure::Rejected { code, message } => {
                let mut out = joined("Broadcast rejected: ", message.as_str());
                out.append(" (code ");
                push_decimal_int(&mut out, *code);
                out.append(")");
                out
            },
            Failure::FvkExport(text) => joined("FVK export failed: ", text.as_str()),
        }
    }
}

// ---------------------------------------------------------------------------
// Laws
// ---------------------------------------------------------------------------

/// A failure that carries words ends in these words, behind others that tell what
/// failed.
pub proof fn law_a_failure_ends_in_its_words(text: String)
    ensures
        failure_text(Failure::Plain(text)) == text@,
        failure_text(Failure::AccountIds(text)) == "get_account_ids: "@ + text@,
        failure_text(Failure::InvalidAddress(text)) == "Invalid address: "@ + text@,
        failure_text(Failure::AddressConversion(text)) == "Address conversion: "@ + text@,
        failure_text(Failure::Memo(text)) == "Memo error: "@ + text@,
        failure_text(Failure::Proposal(text)) == "Proposal failed: "@ + text@,
        failure_text(Failure::MaxProposal(text)) == "Proposal error: "@ + text@,
        failure_text(Failure::SeedPhrase(text)) == "Invalid seed phrase: "@ + text@,
        failure_text(Failure::KeyDerivation(text)) == "USK derivation: "@ + text@,
        failure_text(Failure::TransparentReceivers(text)) == "get_transparent_receivers: "@ + text@,
        failure_text(Failure::CreateTransaction(text)) == "Create tx failed: "@ + text@,
        failure_text(Failure::ShieldingProposal(text)) == "Shielding proposal failed: "@ + text@,
        failure_text(Failure::CreateShielding(text)) == "Create shielding tx failed: "@ + text@,
        failure_text(Failure::CreatePczt(text)) == "Create PCZT failed: "@ + text@,
        failure_text(Failure::HardwareSigning(text)) == "Hardware signing failed: "@ + text@,
        failure_text(Failure::ParsePczt(text)) == "Parse signed PCZT failed: "@ + text@,
        failure_text(Failure::ExtractTransaction(text)) == "Extract transaction failed: "@ + text@,
        failure_text(Failure::GetTransaction(text)) == "get_transaction: "@ + text@,
        failure_text(Failure::SerializeTransaction(text)) == "Serialize tx: "@ + text@,
        failure_text(Failure::Broadcast(text)) == "Broadcast failed: "@ + text@,
        failure_text(Failure::FvkExport(text)) == "FVK export failed: "@ + text@,
{
}

/// A failure that carries no words has its own.
pub proof fn law_a_failure_without_words()
    ensures
        failure_text(Failure::NotInitialized) == "Engine not initialized"@,
        failure_text(Failure::NoPendingProposal) == "No pending proposal \u{2014} call propose_send first"@,
        failure_text(Failure::NoAccounts) == "No accounts"@,
        failure_text(Failure::NoAccountsInWallet) == "No accounts in wallet"@,
        failure_text(Failure::InvalidAmount) == "Invalid amount"@,
        failure_text(Failure::NoDataDirectory) == "Cannot determine data directory"@,
        failure_text(Failure::NoTransparentReceivers) == "No transparent receivers found"@,
        failure_text(Failure::NotFoundAfterCreation) == "Transaction not found after creation"@,
        failure_text(Failure::NotFoundAfterExtraction) == "Transaction not found after extraction"@,
{
}

/// A refusal of the server shows what the server said and its code, which reads
/// back.
pub proof fn law_a_refusal_shows_its_code(code: i32, message: String)
    ensures
        exists|number: Seq<char>|
            {
                &&& failure_text(Failure::Rejected { code, message })
                    == #[trigger] ("Broadcast rejected: "@ + message@ + " (code "@ + number + ")"@)
                &&& number.len() > 0
                &&& code >= 0 ==> number_of(number) == code
                &&& code < 0 ==> number[0] == '-' && number_of(number.skip(1)) == -code
            },
{
    law_a_signed_decimal_reads_back(code as int);
    let number = decimal_int(code as int);
    assert(failure_text(Failure::Rejected { code, message }) == "Broadcast rejected: "@ + message@
        + " (code "@ + number + ")"@);
}

/// Every directory that was searched is listed, in order, with a comma between
/// each two.
pub proof fn law_all_searched_directories_are_listed(a: Seq<String>, b: Seq<String>, dir: String)
    ensures
        listed(seq![dir]) == debug_path(dir@),
        a.len() > 0 && b.len() > 0 ==> listed(a + b) == listed(a) + ", "@ + listed(b),
    decreases b.len(),
{
    if a.len() > 0 && b.len() > 0 {
        let all = a + b;
        assert(all.drop_last() =~= a + b.drop_last());
        assert(all.last() == b.last());
        if b.len() == 1 {
            assert(a + b.drop_last() =~= a);
        } else {
            law_all_searched_directories_are_listed(a, b.drop_last(), dir);
            assert(listed(all) =~= listed(a) + ", "@ + listed(b));
        }
    }
}

} // verus!
