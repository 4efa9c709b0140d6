use dispatcher::blockchain::{claims_sent, BlockchainDriver, DriverError};
use dispatcher::history::{Claim, DAppClaims, History};
use dispatcher::machine::{FeedError, FeedItem, RollupClaim};
use dispatcher::mock;
use dispatcher::primitives::{Address, Hash256};
use dispatcher::tx_sender::SubmissionError;

// ------------------------------------------------------------------------

fn addr(n: u64) -> Address {
    Address { hi: 0, lo: n as u128 }
}

fn hash(n: u64) -> Hash256 {
    Hash256 { hi: 0, lo: n as u128 }
}

#[test]
fn test_new() {
    let dapp_address = addr(0);
    let blockchain_driver = BlockchainDriver::new(dapp_address);
    assert_eq!(blockchain_driver.dapp_address, dapp_address);
}

// ------------------------------------------------------------------------

fn confirmed_claim(n: u64) -> Claim {
    let start_input_index = n * 10;
    Claim {
        epoch_hash: hash(n),
        start_input_index,
        end_input_index: start_input_index + 5,
        claim_timestamp: n,
    }
}

fn confirmed_claims(n: usize) -> Vec<Claim> {
    let mut claims = Vec::new();
    for k in 0..n {
        claims.push(confirmed_claim(k as u64));
    }
    claims
}

fn new_history() -> History {
    History { history_address: addr(900), dapp_claims: Vec::new() }
}

fn update_history(history: &History, dapp_address: Address, n: usize) -> History {
    let mut dapp_claims = history.dapp_claims.clone();
    dapp_claims.retain(|entry| entry.0 != dapp_address);
    dapp_claims.push((dapp_address, DAppClaims { claims: confirmed_claims(n) }));
    History { history_address: history.history_address, dapp_claims }
}

// ------------------------------------------------------------------------

#[test]
fn test_claims_sent_some_0() {
    let dapp_address = addr(10);
    let history = new_history();
    let history = update_history(&history, dapp_address, 0);
    let n = claims_sent(&history, &dapp_address);
    assert_eq!(n, 0);
}

#[test]
fn test_claims_sent_some_1() {
    let dapp_address1 = addr(11);
    let dapp_address2 = addr(12);
    let history = new_history();
    let history = update_history(&history, dapp_address1, 0);
    let history = update_history(&history, dapp_address2, 1);
    let n = claims_sent(&history, &dapp_address1);
    assert_eq!(n, 0);
    let n = claims_sent(&history, &dapp_address2);
    assert_eq!(n, 1);
}

#[test]
fn test_claims_sent_some_n() {
    let dapp_address1 = addr(13);
    let dapp_address2 = addr(14);
    let history = new_history();
    let history = update_history(&history, dapp_address1, 5);
    let history = update_history(&history, dapp_address2, 2);
    let n = claims_sent(&history, &dapp_address1);
    assert_eq!(n, 5);
    let n = claims_sent(&history, &dapp_address2);
    assert_eq!(n, 2);
}

#[test]
fn test_claims_sent_none() {
    let dapp_address1 = addr(15);
    let dapp_address2 = addr(16);
    let history = new_history();
    let history = update_history(&history, dapp_address1, 1);
    let n = claims_sent(&history, &dapp_address2);
    assert_eq!(n, 0);
}

// ------------------------------------------------------------------------

fn rollup_claims(numbers: &[u64]) -> Vec<RollupClaim> {
    numbers.iter().map(|n| RollupClaim { hash: hash(*n), number: *n }).collect()
}

/// Snapshot with 5 confirmed claims for the driver's address (and 2 for an
/// unrelated one), as the reconciliation scenarios assume.
fn scenario_history(dapp_address: Address) -> History {
    let history = new_history();
    let history = update_history(&history, dapp_address, 5);
    update_history(&history, addr(800), 2)
}

fn test_react(next_claims: Vec<u64>, n: usize) {
    let dapp_address = addr(1);
    let blockchain_driver = BlockchainDriver::new(dapp_address);
    let history = scenario_history(dapp_address);

    let next_claims = rollup_claims(&next_claims);
    let mut broker = mock::Broker::new(next_claims);
    let tx_sender = mock::TxSender::new();

    let result = blockchain_driver.react(&history, &mut broker, tx_sender);
    assert!(result.is_ok());
    let tx_sender = result.unwrap();
    assert_eq!(tx_sender.count(), n);
    assert_eq!(broker.remaining(), 0);
}

#[test]
fn test_react_no_claim() {
    test_react(vec![], 0);
}

// broker has 1 (new) claim -- sent 1 claim
#[test]
fn test_react_1_new_claim_sent_1_claim() {
    test_react(vec![6], 1);
}

// broker has 1 (old) claim -- sent 0 claims
#[test]
fn test_react_1_old_claim_sent_0_claims() {
    test_react(vec![5], 0);
}

// broker has 2 claims (1 old, 1 new) -- sent 1 claim
#[test]
fn test_react_2_claims_sent_1_claim() {
    test_react(vec![5, 6], 1);
}

// broker has interleaved old and new claims -- sent 5 new claims
#[test]
fn test_react_interleaved_old_new_claims_sent_5_claims() {
    test_react(vec![1, 5, 6, 2, 3, 7, 8, 4, 5, 9, 10], 5);
}

// ------------------------------------------------------------------------

#[test]
fn test_react_nothing_confirmed_nothing_pending() {
    // Snapshot confirms 0 claims and the feed yields nothing: 0 submissions,
    // success.
    let dapp_address = addr(3);
    let blockchain_driver = BlockchainDriver::new(dapp_address);
    let history = update_history(&new_history(), dapp_address, 0);

    let mut broker = mock::Broker::new(Vec::new());
    let tx_sender = mock::TxSender::new();

    let tx_sender =
        blockchain_driver.react(&history, &mut broker, tx_sender).unwrap();
    assert_eq!(tx_sender.count(), 0);
}

#[test]
fn test_react_submits_in_feed_order() {
    let dapp_address = addr(1);
    let blockchain_driver = BlockchainDriver::new(dapp_address);
    let history = scenario_history(dapp_address);

    let mut broker = mock::Broker::new(rollup_claims(&[7, 2, 6, 9]));
    let tx_sender = mock::TxSender::new();

    let tx_sender =
        blockchain_driver.react(&history, &mut broker, tx_sender).unwrap();
    assert_eq!(tx_sender.count(), 3);
    assert_eq!(tx_sender.sent_at(0), hash(7));
    assert_eq!(tx_sender.sent_at(1), hash(6));
    assert_eq!(tx_sender.sent_at(2), hash(9));
}

#[test]
fn test_react_zero_threshold_submits_all() {
    let dapp_address = addr(2);
    let blockchain_driver = BlockchainDriver::new(dapp_address);
    // The snapshot has no entry for this address: the threshold is 0 and
    // every claim numbered 1 and above qualifies.
    let history = new_history();

    let mut broker = mock::Broker::new(rollup_claims(&[1, 2, 3]));
    let tx_sender = mock::TxSender::new();

    let tx_sender =
        blockchain_driver.react(&history, &mut broker, tx_sender).unwrap();
    assert_eq!(tx_sender.count(), 3);
}

#[test]
fn test_react_rerun_with_advanced_snapshot_resubmits_nothing() {
    let dapp_address = addr(1);
    let blockchain_driver = BlockchainDriver::new(dapp_address);
    let numbers = [6, 7, 8];

    let history = scenario_history(dapp_address);
    let mut broker = mock::Broker::new(rollup_claims(&numbers));
    let tx_sender =
        blockchain_driver.react(&history, &mut broker, mock::TxSender::new()).unwrap();
    assert_eq!(tx_sender.count(), 3);

    // A later snapshot confirms the three claims the first pass submitted;
    // re-offering the same feed submits nothing more.
    let history = update_history(&history, dapp_address, 8);
    let mut broker = mock::Broker::new(rollup_claims(&numbers));
    let tx_sender =
        blockchain_driver.react(&history, &mut broker, mock::TxSender::new()).unwrap();
    assert_eq!(tx_sender.count(), 0);
}

#[test]
fn test_react_feed_error_aborts_with_that_error() {
    let dapp_address = addr(1);
    let blockchain_driver = BlockchainDriver::new(dapp_address);
    let history = scenario_history(dapp_address);

    let items = vec![
        FeedItem::Claim(RollupClaim { hash: hash(6), number: 6 }),
        FeedItem::Fail(FeedError { code: 42 }),
        FeedItem::Claim(RollupClaim { hash: hash(7), number: 7 }),
    ];
    let mut broker = mock::Broker::from_items(items);
    let tx_sender = mock::TxSender::new();

    let result = blockchain_driver.react(&history, &mut broker, tx_sender);
    assert_eq!(result.unwrap_err(), DriverError::Feed(FeedError { code: 42 }));
    // The failure itself was consumed; the outcome after it was not.
    assert_eq!(broker.remaining(), 1);
}

#[test]
fn test_react_submission_error_aborts_with_that_error() {
    let dapp_address = addr(1);
    let blockchain_driver = BlockchainDriver::new(dapp_address);
    let history = scenario_history(dapp_address);

    let mut broker = mock::Broker::new(rollup_claims(&[5, 6, 7]));
    let tx_sender = mock::FailingTxSender { error: SubmissionError { code: 3 } };

    let result = blockchain_driver.react(&history, &mut broker, tx_sender);
    assert_eq!(
        result.unwrap_err(),
        DriverError::Submission(SubmissionError { code: 3 })
    );
    // The old claim and the first qualifying claim were consumed before the
    // submission failed; the rest of the feed was not.
    assert_eq!(broker.remaining(), 1);
}
