//! The spending key of the wallet, from its seed phrase.
use vstd::prelude::*;

use crate::engine::Network;
use crate::external::{
    check_phrase, derive_spending_key, phrase_fault, phrase_seed, seed_of_phrase, spending_key,
    wipe,
};
use crate::failure::{failure_text, Failure};

verus! {

/// The account that the wallet spends from.
pub const ACCOUNT: u32 = 0;

/// The encoded spending key that a seed gives, or the failure that says why
/// there is none.
pub open spec fn seed_key_is(r: Result<Vec<u8>, Failure>, network: Network, seed: Seq<u8>) -> bool {
    match r {
        Ok(key) => spending_key(network, seed, ACCOUNT) == Ok::<Seq<u8>, Seq<char>>(key@),
        Err(Failure::KeyDerivation(text)) => spending_key(network, seed, ACCOUNT) == Err::<
            Seq<u8>,
            Seq<char>,
        >(text@),
        Err(_) => false,
    }
}

/// The encoded spending key that a seed phrase gives with an empty passphrase,
/// or the failure that says why there is none.
pub open spec fn phrase_key_is(
    r: Result<Vec<u8>, Failure>,
    network: Network,
    phrase: Seq<char>,
) -> bool {
    match r {
        Err(Failure::SeedPhrase(text)) => phrase_fault(phrase) == Some(text@),
        _ => {
            &&& phrase_fault(phrase) is None
            &&& seed_key_is(r, network, phrase_seed(phrase, ""@))
        },
    }
}

/// Derives the spending key from a seed. The seed is wiped, whether or not
/// there is a key.
pub fn key_from_seed(network: Network, seed: &mut [u8; 64]) -> (r: Result<Vec<u8>, Failure>)
    ensures
        seed_key_is(r, network, old(seed)@),
        final(seed)@ == Seq::new(64, |i: int| 0u8),
{
    let derived = derive_spending_key(network, seed, ACCOUNT);
    wipe(seed);
    match derived {
        Ok(key) => Ok(key),
        Err(text) => Err(Failure::KeyDerivation(text)),
    }
}

/// Derives the spending key from a seed phrase.
pub fn key_from_phrase(network: Network, phrase: &str) -> (r: Result<Vec<u8>, Failure>)
    ensures
        phrase_key_is(r, network, phrase@),
{
    match check_phrase(phrase) {
        Err(text) => Err(Failure::SeedPhrase(text)),
        Ok(_) => {
            let mut seed = seed_of_phrase(phrase, "");
            key_from_seed(network, &mut seed)
        },
    }
}

// ---------------------------------------------------------------------------
// Laws
// ---------------------------------------------------------------------------

/// The key of the wallet is that of account 0 of the network, from the seed that
/// the phrase gives without a passphrase. Where the phrase is none, or gives no
/// key, that is what is reported.
pub proof fn law_the_key_is_that_of_the_first_account(
    r: Result<Vec<u8>, Failure>,
    network: Network,
    phrase: Seq<char>,
)
    requires
        phrase_key_is(r, network, phrase),
    ensures
        ({
            let key = spending_key(network, phrase_seed(phrase, ""@), 0);
            &&& phrase_fault(phrase) is Some ==> r is Err && failure_text(r->Err_0)
                == "Invalid seed phrase: "@ + phrase_fault(phrase)->0
            &&& phrase_fault(phrase) is None && key is Err ==> r is Err && failure_text(r->Err_0)
                == "USK derivation: "@ + key->Err_0
            &&& phrase_fault(phrase) is None && key is Ok ==> r is Ok && r->Ok_0@ == key->Ok_0
        }),
{
}

/// A seed gives the key of account 0, or says why it gives none.
pub proof fn law_a_seed_gives_one_key(r: Result<Vec<u8>, Failure>, network: Network, seed: Seq<u8>)
    requires
        seed_key_is(r, network, seed),
    ensures
        r is Ok <==> spending_key(network, seed, 0) is Ok,
        r is Ok ==> r->Ok_0@ == spending_key(network, seed, 0)->Ok_0,
        r is Err ==> failure_text(r->Err_0) == "USK derivation: "@ + spending_key(
            network,
            seed,
            0,
        )->Err_0,
{
}

} // verus!
