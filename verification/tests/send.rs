use zcash_protocol::consensus::Network as Params;
use zipher_engine::engine::{Network, ZipherEngine};
use zipher_engine::external::{AddressKind, Receiver};
use zipher_engine::failure::Failure;
use zipher_engine::hw_signer::{
    confirm_send_hw, export_fvk_from_device, read_signed, signed_report, write_unsigned,
};
use zipher_engine::keys::{key_from_phrase, key_from_seed};
use zipher_engine::pass::Pool;
use zipher_engine::send::{
    change_pool, get_max_sendable, keep_proposal, max_query, payment_to, plan_payment, plan_send,
    plan_to, propose_send, send_total, spend_pools, take_pending_proposal, MaxQuery, PendingSend,
    ProposeEvent, SendPlan, SendProposal,
};
use zipher_engine::spend::{
    confirm_send, load_prover_from_path, param_files, reported_len, send_payment, shield_funds,
    started, tx_header, Probe, Route, Spend, SpendEvent, SpendStage, SHIELDING_THRESHOLD,
};

const PHRASE: &str = "bottom drive obey lake curtain smoke basket hold race lonely fit walk";
const T_MAIN: &str = "t1Hsc1LR8yKnbbe3twRp88p6vFfC5t7DLbs";
const T_TEST: &str = "tm9iMLAuYMzJ6jtFLcA7rzUmfreGuKvr7Ma";
const Z_MAIN: &str = "zs1z7rejlpsa98s2rrrfkwmaxu53e4ue0ulcrw0h4x5g8jl04tak0d3mm47vdtahatqrlkngh9slya";
const TEX_MAIN: &str = "tex1s2rt77ggv6q989lr49rkgzmh5slsksa9khdgte";

fn engine() -> Option<ZipherEngine> {
    Some(ZipherEngine {
        db_data_path: "/wallets/one/zipher-data.sqlite".to_string(),
        db_cache_path: "/wallets/one/zipher-cache.sqlite".to_string(),
        params: Network::Main,
        server_url: "https://server".to_string(),
        birthday: 0,
        db_cipher_key: None,
    })
}

fn some(text: &str) -> Option<String> {
    Some(text.to_string())
}

#[test]
fn a_plan_for_a_shielded_address() {
    let plan = plan_send(Network::Main, Z_MAIN, 1000, &some("hi"), false).unwrap();
    assert_eq!(plan.address, Z_MAIN);
    assert_eq!(plan.kind, AddressKind::Sapling);
    assert_eq!(plan.amount, Some(1000));
    let memo = plan.memo.unwrap();
    assert_eq!(memo.len(), 512);
    assert_eq!(&memo[..3], &[104, 105, 0]);
    assert!(memo[2..].iter().all(|b| *b == 0));
}

#[test]
fn a_memo_never_goes_to_a_transparent_address() {
    let plan = plan_send(Network::Main, T_MAIN, 1, &some("hi"), false).unwrap();
    assert_eq!(plan.kind, AddressKind::Transparent);
    assert!(plan.memo.is_none());
    let long = "x".repeat(600);
    assert!(plan_send(Network::Main, T_MAIN, 1, &Some(long), false).unwrap().memo.is_none());
    let plan = plan_send(Network::Main, Z_MAIN, 1, &some(""), false).unwrap();
    assert!(plan.memo.is_none());
    let plan = plan_send(Network::Main, TEX_MAIN, 1, &some("m"), false).unwrap();
    assert_eq!(plan.kind, AddressKind::Tex);
    assert!(plan.memo.is_some());
}

#[test]
fn a_plan_says_what_is_wrong() {
    let f = plan_send(Network::Main, "nonsense", 1, &None, false).unwrap_err();
    assert!(matches!(f, Failure::InvalidAddress(_)));
    assert!(f.message().starts_with("Invalid address: "));
    let f = plan_send(Network::Main, T_TEST, 1, &None, false).unwrap_err();
    assert!(matches!(f, Failure::AddressConversion(_)));
    assert!(f.message().starts_with("Address conversion: "));
    let long = Some("x".repeat(513));
    let f = plan_send(Network::Main, Z_MAIN, u64::MAX, &long, false).unwrap_err();
    assert_eq!(f.message(), "Memo error: TooLong(513)");
    assert!(plan_send(Network::Main, Z_MAIN, 1, &Some("x".repeat(512)), false).is_ok());
    let f = plan_send(Network::Main, Z_MAIN, 2_100_000_000_000_001, &None, false).unwrap_err();
    assert_eq!(f.message(), "Invalid amount");
    assert!(plan_send(Network::Main, Z_MAIN, 2_100_000_000_000_000, &None, false).is_ok());
}

#[test]
fn the_amount_is_ignored_when_everything_is_sent() {
    let plan = plan_send(Network::Main, Z_MAIN, u64::MAX, &None, true).unwrap();
    assert_eq!(plan.amount, None);
    let plan = plan_to("any", AddressKind::Unified, u64::MAX, &None, true).unwrap();
    assert_eq!(plan.address, "any");
    assert_eq!(plan.kind, AddressKind::Unified);
    assert_eq!(plan.amount, None);
}

#[test]
fn a_payment_goes_to_every_recipient() {
    let f = plan_payment(Network::Main, &vec![]).unwrap_err();
    assert!(matches!(f, Failure::NoRecipients));
    assert_eq!(f.message(), "Multi-recipient sends not yet implemented in the new engine");
    let one = (Z_MAIN.to_string(), 5u64, some("m"));
    let two = (T_MAIN.to_string(), 6u64, some("ignored"));
    let plans = plan_payment(Network::Main, &vec![one.clone(), two.clone()]).unwrap();
    assert_eq!(plans.len(), 2);
    assert_eq!((plans[0].address.as_str(), plans[0].amount), (Z_MAIN, Some(5)));
    assert_eq!(plans[0].memo.as_ref().unwrap()[0], b'm');
    assert_eq!((plans[1].address.as_str(), plans[1].amount), (T_MAIN, Some(6)));
    assert_eq!(plans[1].kind, AddressKind::Transparent);
    assert!(plans[1].memo.is_none());
    assert_eq!(plan_payment(Network::Main, &vec![one.clone()]).unwrap().len(), 1);
    let bad = ("nonsense".to_string(), u64::MAX, None);
    let much = (Z_MAIN.to_string(), u64::MAX, None);
    assert!(matches!(
        plan_payment(Network::Main, &vec![one.clone(), much.clone(), bad.clone()]),
        Err(Failure::InvalidAmount)
    ));
    assert!(matches!(
        plan_payment(Network::Main, &vec![one, bad, much]),
        Err(Failure::InvalidAddress(_))
    ));
}

#[test]
fn a_payment_looks_at_the_amount_before_the_memo() {
    let long = Some("x".repeat(600));
    assert!(matches!(
        payment_to("a", AddressKind::Sapling, u64::MAX, &long),
        Err(Failure::InvalidAmount)
    ));
    assert!(matches!(payment_to("a", AddressKind::Sapling, 1, &long), Err(Failure::Memo(_))));
    assert!(matches!(
        plan_to("a", AddressKind::Sapling, u64::MAX, &long, false),
        Err(Failure::Memo(_))
    ));
}

#[test]
fn memos_count_in_bytes() {
    let text = "\u{e9}".repeat(257);
    assert_eq!(
        payment_to("a", AddressKind::Sapling, 1, &Some(text)).unwrap_err().message(),
        "Memo error: TooLong(514)"
    );
    let text = "\u{e9}".repeat(256);
    let memo = payment_to("a", AddressKind::Sapling, 1, &Some(text)).unwrap().memo.unwrap();
    assert_eq!(&memo[510..], &[0xc3, 0xa9]);
}

#[test]
fn totals() {
    assert_eq!(send_total(&vec![]), 0);
    assert_eq!(send_total(&vec![Some(3), None, Some(4)]), 7);
    assert_eq!(spend_pools(), vec![Pool::Sapling, Pool::Orchard]);
    assert_eq!(change_pool(), Pool::Orchard);
    assert_eq!(SHIELDING_THRESHOLD, 100_000);
}

#[test]
fn a_proposal_is_made_step_by_step() {
    assert!(matches!(
        propose_send(&None, Z_MAIN, 1, &None, false),
        Err(Failure::NotInitialized)
    ));
    let p = propose_send(&engine(), Z_MAIN, 7, &None, false).unwrap();
    assert!(matches!(p, SendProposal::OpenWallet(Ok(_))));
    let p = p.step(ProposeEvent::Accounts(1));
    assert!(matches!(p, SendProposal::OpenWallet(Ok(_))));
    let p = p.step(ProposeEvent::Finished);
    assert!(matches!(p, SendProposal::ListAccounts(Ok(_))));
    let p = p.step(ProposeEvent::Accounts(2));
    match p {
        SendProposal::Propose(plan) => assert_eq!(plan.amount, Some(7)),
        _ => panic!("no proposal"),
    }
}

fn failed(p: SendProposal) -> String {
    match p {
        SendProposal::Failed(f) => f.message(),
        _ => panic!("not failed"),
    }
}

#[test]
fn a_proposal_fails_where_it_must() {
    let open = || propose_send(&engine(), Z_MAIN, 7, &None, false).unwrap();
    assert_eq!(failed(open().step(ProposeEvent::Failed("db".to_string()))), "db");
    let list = || open().step(ProposeEvent::Finished);
    assert_eq!(failed(list().step(ProposeEvent::Failed("ids".to_string()))), "ids");
    assert_eq!(failed(list().step(ProposeEvent::Accounts(0))), "No accounts");
    let bad = propose_send(&engine(), "nonsense", 7, &None, false).unwrap();
    let bad = bad.step(ProposeEvent::Finished).step(ProposeEvent::Accounts(1));
    assert!(failed(bad).starts_with("Invalid address: "));
    let p = list().step(ProposeEvent::Accounts(1)).step(ProposeEvent::Failed("no".to_string()));
    assert_eq!(failed(p), "Proposal failed: no");
}

#[test]
fn the_latest_proposal_is_taken_once() {
    let mut pending: PendingSend<u8> = PendingSend::new();
    assert_eq!(take_pending_proposal(&mut pending), None);
    let plan = plan_to("a", AddressKind::Sapling, 5, &None, false).unwrap();
    assert_eq!(keep_proposal(&mut pending, &plan, 1, 9, 10), (5, 10, true));
    let max = plan_to("a", AddressKind::Sapling, 5, &None, true).unwrap();
    assert_eq!(keep_proposal(&mut pending, &max, 2, 9, 10), (9, 10, true));
    assert_eq!(take_pending_proposal(&mut pending), Some(2));
    assert_eq!(take_pending_proposal(&mut pending), None);
}

fn most(q: MaxQuery) -> Result<u64, String> {
    match q {
        MaxQuery::Done(r) => r.map_err(|f| f.message()),
        _ => panic!("not ended"),
    }
}

#[test]
fn the_most_that_can_be_sent() {
    assert!(matches!(get_max_sendable(&None, Z_MAIN), Err(Failure::NotInitialized)));
    let ready = || {
        get_max_sendable(&engine(), T_TEST)
            .unwrap()
            .step(ProposeEvent::Finished)
            .step(ProposeEvent::Accounts(1))
    };
    assert!(matches!(ready(), MaxQuery::Propose(a) if a == T_TEST));
    assert_eq!(most(ready().step(ProposeEvent::Proposed(123))), Ok(123));
    let text = "InsufficientFunds { available: 1 }".to_string();
    assert_eq!(most(ready().step(ProposeEvent::Failed(text))), Ok(0));
    let text = "other".to_string();
    assert_eq!(most(ready().step(ProposeEvent::Failed(text))), Err("Proposal error: other".to_string()));
    let bad = get_max_sendable(&engine(), "nonsense").unwrap();
    let bad = bad.step(ProposeEvent::Finished).step(ProposeEvent::Accounts(1));
    assert!(most(bad).unwrap_err().starts_with("Invalid address: "));
    let q = max_query("a", Err("x".to_string())).step(ProposeEvent::Finished);
    assert_eq!(most(q.step(ProposeEvent::Accounts(0))), Err("No accounts".to_string()));
    let q = max_query("a", Ok(()));
    assert_eq!(most(q.step(ProposeEvent::Failed("db".to_string()))), Err("db".to_string()));
    let q = max_query("a", Ok(())).step(ProposeEvent::Finished);
    assert_eq!(most(q.step(ProposeEvent::Failed("ids".to_string()))), Err("ids".to_string()));
}

fn expected_key(network: Params) -> Vec<u8> {
    let seed = bip0039::Mnemonic::<bip0039::English>::from_phrase(PHRASE).unwrap().to_seed("");
    zcash_keys::keys::UnifiedSpendingKey::from_seed(&network, &seed, zip32::AccountId::ZERO)
        .unwrap()
        .to_bytes(zcash_keys::keys::Era::Orchard)
}

#[test]
fn the_key_of_a_phrase() {
    assert_eq!(key_from_phrase(Network::Main, PHRASE).unwrap(), expected_key(Params::MainNetwork));
    assert_eq!(key_from_phrase(Network::Test, PHRASE).unwrap(), expected_key(Params::TestNetwork));
    let f = key_from_phrase(Network::Main, "one two three").unwrap_err();
    assert_eq!(f.message(), "Invalid seed phrase: BadWordCount(3)");
}

#[test]
fn a_seed_is_wiped() {
    let mut seed =
        bip0039::Mnemonic::<bip0039::English>::from_phrase(PHRASE).unwrap().to_seed("");
    let key = key_from_seed(Network::Main, &mut seed).unwrap();
    assert_eq!(key, expected_key(Params::MainNetwork));
    assert_eq!(seed, [0u8; 64]);
}

#[test]
fn where_the_parameters_are_looked_for() {
    let dirs = load_prover_from_path("/wallets/one/zipher-data.sqlite").unwrap();
    assert_eq!(dirs, vec!["/wallets/one".to_string(), "/wallets".to_string()]);
    let dirs = load_prover_from_path("zipher-data.sqlite").unwrap();
    assert_eq!(dirs, vec!["".to_string(), "".to_string()]);
    assert!(load_prover_from_path("/").is_none());
    let (spend, output) = param_files("/p");
    assert_eq!(spend, "/p/sapling-spend.params");
    assert_eq!(output, "/p/sapling-output.params");
}

fn probe(spend: bool, output: bool) -> Probe {
    Probe { spend, output }
}

fn result(s: Spend) -> Result<String, String> {
    match s.stage {
        SpendStage::Done(r) => r.map_err(|f| f.message()),
        _ => panic!("not ended"),
    }
}

fn fail(s: Spend, text: &str) -> String {
    result(s.step(SpendEvent::Failed(text.to_string()))).unwrap_err()
}

fn receivers() -> Vec<Receiver> {
    vec![Receiver::PublicKeyHash([1; 20]), Receiver::ScriptHash([2; 20])]
}

fn at_create(route: Route) -> Spend {
    let s = started(route, &engine().unwrap(), Some(vec![1, 2])).step(SpendEvent::Finished);
    let s = match route {
        Route::Confirm => s,
        Route::Shield => s.step(SpendEvent::Count(1)).step(SpendEvent::Receivers(receivers())),
        _ => s.step(SpendEvent::Count(1)),
    };
    s.step(SpendEvent::Probed(vec![probe(false, true), probe(true, true)]))
}

#[test]
fn a_confirmed_proposal_is_broadcast() {
    let mut pending = PendingSend { proposal: Some("proposal") };
    let (proposal, s) = confirm_send(&mut pending, &engine(), PHRASE).unwrap();
    assert_eq!(proposal, "proposal");
    assert!(pending.proposal.is_none());
    assert_eq!(s.route, Route::Confirm);
    assert_eq!(s.key, Some(expected_key(Params::MainNetwork)));
    let s = s.step(SpendEvent::Finished);
    assert!(matches!(&s.stage, SpendStage::FindParams(d) if d.len() == 2 && d[0] == "/wallets/one"));
    let s = s.step(SpendEvent::Probed(vec![probe(true, false), probe(true, true)]));
    assert!(matches!(&s.stage, SpendStage::Create(d) if d == "/wallets"));
    assert!(s.key.is_some());
    let s = s.step(SpendEvent::Created("id".to_string()));
    assert!(s.key.is_none());
    assert!(matches!(&s.stage, SpendStage::Fetch { txid } if txid == "id"));
    let s = s.step(SpendEvent::Found(vec![1, 2, 3]));
    assert!(matches!(&s.stage, SpendStage::Connect { .. }));
    let s = s.step(SpendEvent::Finished);
    assert!(matches!(
        &s.stage,
        SpendStage::Broadcast { data, height: 0, .. } if data == &vec![1, 2, 3]
    ));
    assert_eq!(s.server, "https://server");
    let s = s.step(SpendEvent::Reply { code: 0, message: "ignored".to_string() });
    let s = s.step(SpendEvent::Failed("late".to_string()));
    assert_eq!(result(s), Ok("id".to_string()));
}

#[test]
fn a_confirmation_consumes_the_proposal() {
    let mut pending: PendingSend<u8> = PendingSend::new();
    let f = confirm_send(&mut pending, &engine(), PHRASE).err().unwrap();
    assert_eq!(f.message(), "No pending proposal \u{2014} call propose_send first");
    let mut pending = PendingSend { proposal: Some(1u8) };
    let f = confirm_send(&mut pending, &None, PHRASE).err().unwrap();
    assert_eq!(f.message(), "Engine not initialized");
    assert!(pending.proposal.is_none());
    let mut pending = PendingSend { proposal: Some(1u8) };
    assert!(matches!(confirm_send(&mut pending, &engine(), "x"), Err(Failure::SeedPhrase(_))));
    assert!(pending.proposal.is_none());
}

#[test]
fn the_first_complete_directory_is_used() {
    let s = started(Route::Confirm, &engine().unwrap(), None).step(SpendEvent::Finished);
    let s = s.step(SpendEvent::Probed(vec![probe(true, true), probe(true, true)]));
    assert!(matches!(&s.stage, SpendStage::Create(d) if d == "/wallets/one"));
    let s = started(Route::Confirm, &engine().unwrap(), None).step(SpendEvent::Finished);
    let s = s.step(SpendEvent::Probed(vec![probe(true, false), probe(false, true)]));
    assert_eq!(
        result(s),
        Err("Sapling params not found. Searched [\"/wallets/one\", \"/wallets\"].".to_string())
    );
    let mut e = engine().unwrap();
    e.db_data_path = "/".to_string();
    let s = started(Route::Confirm, &e, None).step(SpendEvent::Finished);
    assert_eq!(result(s), Err("Cannot determine data directory".to_string()));
}

#[test]
fn failures_of_a_confirmed_proposal() {
    assert_eq!(fail(started(Route::Confirm, &engine().unwrap(), None), "db"), "db");
    assert_eq!(fail(at_create(Route::Confirm), "x"), "Create tx failed: x");
    let fetch = || at_create(Route::Confirm).step(SpendEvent::Created("id".to_string()));
    assert_eq!(fail(fetch(), "x"), "x");
    assert_eq!(
        result(fetch().step(SpendEvent::Missing)),
        Err("Transaction not found after creation".to_string())
    );
    assert_eq!(
        result(fetch().step(SpendEvent::NotEncoded("x".to_string()))),
        Err("Serialize tx: x".to_string())
    );
    let connect = || fetch().step(SpendEvent::Found(vec![]));
    assert_eq!(fail(connect(), "x"), "x");
    let send = || connect().step(SpendEvent::Finished);
    assert_eq!(fail(send(), "x"), "Broadcast failed: x");
    assert_eq!(
        result(send().step(SpendEvent::Reply { code: -25, message: "bad".to_string() })),
        Err("Broadcast rejected: bad (code -25)".to_string())
    );
}

#[test]
fn a_payment_goes_its_way() {
    let recipients = vec![(Z_MAIN.to_string(), 5u64, None)];
    assert!(matches!(send_payment(&None, PHRASE, &recipients), Err(Failure::NotInitialized)));
    assert!(matches!(send_payment(&engine(), "x", &recipients), Err(Failure::SeedPhrase(_))));
    let s = send_payment(&engine(), PHRASE, &recipients).unwrap();
    assert!(s.key.is_some());
    assert_eq!(s.plans.iter().map(|p: &SendPlan| p.amount).collect::<Vec<_>>(), vec![Some(5)]);
    let s = s.step(SpendEvent::Finished);
    assert!(matches!(s.stage, SpendStage::ListAccounts));
    let s = s.step(SpendEvent::Count(1));
    assert!(matches!(s.stage, SpendStage::FindParams(_)));
    let s = send_payment(&engine(), PHRASE, &vec![]).unwrap();
    let s = s.step(SpendEvent::Finished).step(SpendEvent::Count(1));
    assert!(s.key.is_none());
    assert_eq!(
        result(s),
        Err("Multi-recipient sends not yet implemented in the new engine".to_string())
    );
    let two = vec![(Z_MAIN.to_string(), 5u64, None), (T_MAIN.to_string(), 6u64, None)];
    let s = send_payment(&engine(), PHRASE, &two).unwrap();
    let s = s.step(SpendEvent::Finished).step(SpendEvent::Count(1));
    assert!(matches!(s.stage, SpendStage::FindParams(_)));
    assert_eq!(s.plans.len(), 2);
    let s = send_payment(&engine(), PHRASE, &vec![]).unwrap();
    let s = s.step(SpendEvent::Finished).step(SpendEvent::Count(0));
    assert_eq!(result(s), Err("No accounts in wallet".to_string()));
    let s = send_payment(&engine(), PHRASE, &recipients).unwrap().step(SpendEvent::Finished);
    assert_eq!(fail(s, "x"), "get_account_ids: x");
    let s = at_create(Route::Payment).step(SpendEvent::NotProposed("x".to_string()));
    assert_eq!(result(s), Err("Proposal failed: x".to_string()));
    assert_eq!(fail(at_create(Route::Payment), "x"), "Create tx failed: x");
    let s = at_create(Route::Payment).step(SpendEvent::Created("id".to_string()));
    assert_eq!(fail(s, "x"), "get_transaction: x");
}

#[test]
fn shielding_goes_its_way() {
    assert!(matches!(shield_funds(&None, PHRASE), Err(Failure::NotInitialized)));
    assert!(matches!(shield_funds(&engine(), "x"), Err(Failure::SeedPhrase(_))));
    let list = || shield_funds(&engine(), PHRASE).unwrap().step(SpendEvent::Finished);
    let listing = || list().step(SpendEvent::Count(1));
    assert!(matches!(listing().stage, SpendStage::ListReceivers));
    assert_eq!(fail(listing(), "x"), "get_transparent_receivers: x");
    assert_eq!(
        result(listing().step(SpendEvent::Receivers(vec![]))),
        Err("No transparent receivers found".to_string())
    );
    let s = listing().step(SpendEvent::Receivers(receivers()));
    assert!(matches!(s.stage, SpendStage::FindParams(_)));
    assert_eq!(at_create(Route::Shield).receivers, receivers());
    let s = at_create(Route::Shield).step(SpendEvent::NotProposed("x".to_string()));
    assert_eq!(result(s), Err("Shielding proposal failed: x".to_string()));
    assert_eq!(fail(at_create(Route::Shield), "x"), "Create shielding tx failed: x");
}

#[test]
fn a_device_signs() {
    let mut pending = PendingSend { proposal: Some(7u8) };
    let d = confirm_send_hw(&mut pending, &engine(), Z_MAIN, 5, 6, some("m")).unwrap();
    assert!(pending.proposal.is_none());
    assert_eq!(d.proposal, 7);
    assert_eq!(d.details.recipient, Z_MAIN);
    assert_eq!((d.details.send_amount, d.details.fee, d.details.num_actions), (5, 6, 0));
    assert_eq!(d.details.memo, some("m"));
    assert!(d.spend.key.is_none());
    let s = d.spend.step(SpendEvent::Finished).step(SpendEvent::Count(1));
    assert!(matches!(s.stage, SpendStage::CreateUnsigned));
    let s = s.step(SpendEvent::Finished);
    assert!(matches!(s.stage, SpendStage::Sign));
    let s = s.step(SpendEvent::Finished);
    assert!(matches!(s.stage, SpendStage::Extract));
    let s = s.step(SpendEvent::Created("id".to_string()));
    assert_eq!(
        result(s.step(SpendEvent::Missing)),
        Err("Transaction not found after extraction".to_string())
    );
}

#[test]
fn failures_of_a_device() {
    let mut none: PendingSend<u8> = PendingSend::new();
    assert!(matches!(
        confirm_send_hw(&mut none, &engine(), "a", 1, 1, None),
        Err(Failure::NoPendingProposal)
    ));
    let mut pending = PendingSend { proposal: Some(7u8) };
    assert!(matches!(
        confirm_send_hw(&mut pending, &None, "a", 1, 1, None),
        Err(Failure::NotInitialized)
    ));
    assert!(pending.proposal.is_none());
    let list = || started(Route::Device, &engine().unwrap(), None).step(SpendEvent::Finished);
    assert_eq!(fail(list(), "ids"), "ids");
    assert_eq!(result(list().step(SpendEvent::Count(0))), Err("No accounts".to_string()));
    let unsigned = || list().step(SpendEvent::Count(1));
    assert_eq!(fail(unsigned(), "x"), "Create PCZT failed: x");
    let sign = || unsigned().step(SpendEvent::Finished);
    assert_eq!(fail(sign(), "x"), "Hardware signing failed: x");
    let bad = read_signed(&vec![1, 2, 3]).unwrap_err();
    assert!(matches!(bad, Failure::ParsePczt(_)));
    let s = sign().step(SpendEvent::Unreadable(bad));
    assert!(result(s).unwrap_err().starts_with("Parse signed PCZT failed: "));
    assert_eq!(fail(sign().step(SpendEvent::Finished), "x"), "Extract transaction failed: x");
}

#[test]
fn what_a_device_signed_is_read() {
    let unsigned =
        pczt::roles::creator::Creator::new(0xc2d6_d0b4, 10, 133, [0; 32], [0; 32]).build();
    let bytes = write_unsigned(&unsigned);
    assert_eq!(&bytes[..4], b"PCZT");
    let read = read_signed(&bytes).unwrap();
    assert_eq!(write_unsigned(&read), bytes);
    assert_eq!(*read.global().expiry_height(), 10);
}

#[test]
fn reports_of_a_device() {
    assert_eq!(
        signed_report(2, 1),
        "Hardware signed OK: 2 orchard action(s), 1 transparent input(s)"
    );
    assert_eq!(export_fvk_from_device(Ok(5u8)).unwrap(), 5);
    let f = export_fvk_from_device::<u8>(Err("gone".to_string())).unwrap_err();
    assert_eq!(f.message(), "FVK export failed: gone");
}

#[test]
fn the_header_of_a_transaction() {
    assert!(tx_header(&vec![0; 11]).is_none());
    let bytes = vec![5, 0, 0, 0x80, 0x0a, 0x27, 0xa7, 0x26, 0xb4, 0xd0, 0xd6, 0xc2];
    let h = tx_header(&bytes).unwrap();
    assert_eq!(h.version, 0x8000_0005);
    assert_eq!(h.version_group_id, 0x26a7_270a);
    assert_eq!(h.consensus_branch_id, 0xc2d6_d0b4);
    assert_eq!(reported_len(&vec![0; 2000]), 2000);
    assert_eq!(reported_len(&vec![0; 2001]), 500);
}
