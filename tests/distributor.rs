use std::collections::HashMap;

use payment_stream::distributor::{DistributionError, DistributorContract};
use payment_stream::types::{Address, Outcome};

const ADMIN: Address = Address(1);
const FEE_ADDRESS: Address = Address(2);
const SENDER: Address = Address(3);
const TOKEN: Address = Address(50);

struct Balances {
    of: HashMap<Address, i128>,
}

impl Balances {
    fn new() -> Balances {
        Balances { of: HashMap::new() }
    }

    fn mint(&mut self, to: Address, amount: i128) {
        *self.of.entry(to).or_insert(0) += amount;
    }

    fn balance(&self, who: Address) -> i128 {
        *self.of.get(&who).unwrap_or(&0)
    }

    fn apply(&mut self, outcome: &Outcome) {
        for t in outcome.transfers.iter() {
            let from = self.balance(t.from);
            assert!(from >= t.amount, "transfer exceeds balance");
            self.of.insert(t.from, from - t.amount);
            self.mint(t.to, t.amount);
        }
    }
}

fn setup_distributor(fee_percent: u32) -> DistributorContract {
    let mut client = DistributorContract::new(0);
    client.initialize(ADMIN, ADMIN, fee_percent, FEE_ADDRESS).unwrap();
    client
}

fn people(first: u64, n: u64) -> Vec<Address> {
    (first..first + n).map(Address).collect()
}

#[test]
fn test_initialize() {
    let mut client = DistributorContract::new(0);
    client.initialize(ADMIN, ADMIN, 250, FEE_ADDRESS).unwrap();
    assert_eq!(client.get_admin(), Some(ADMIN));
}

#[test]
fn test_re_initialize_fails() {
    let mut client = DistributorContract::new(0);
    client.initialize(ADMIN, ADMIN, 250, FEE_ADDRESS).unwrap();
    assert_eq!(
        client.initialize(ADMIN, ADMIN, 250, FEE_ADDRESS),
        Err(DistributionError::AlreadyInitialized)
    );
}

#[test]
fn test_distribute_equal() {
    let mut client = setup_distributor(250);
    let mut tokens = Balances::new();
    tokens.mint(SENDER, 10000);
    let recipients = people(10, 3);

    let outcome = client.distribute_equal(SENDER, SENDER, TOKEN, 900, &recipients).unwrap();
    tokens.apply(&outcome);

    assert_eq!(tokens.balance(recipients[0]), 300);
    assert_eq!(tokens.balance(recipients[1]), 300);
    assert_eq!(tokens.balance(recipients[2]), 300);
    assert_eq!(client.get_total_distributions(), 1);
    assert_eq!(client.get_total_distributed_amount(), 900);
}

#[test]
fn test_distribute_weighted() {
    let mut client = setup_distributor(250);
    let mut tokens = Balances::new();
    tokens.mint(SENDER, 10000);
    let recipients = people(10, 3);
    let amounts = vec![100i128, 200, 300];

    let outcome =
        client.distribute_weighted(SENDER, SENDER, TOKEN, &recipients, &amounts).unwrap();
    tokens.apply(&outcome);

    assert_eq!(tokens.balance(recipients[0]), 100);
    assert_eq!(tokens.balance(recipients[1]), 200);
    assert_eq!(tokens.balance(recipients[2]), 300);
    assert_eq!(client.get_total_distributions(), 1);
    assert_eq!(client.get_total_distributed_amount(), 600);
}

#[test]
fn test_distribute_equal_with_protocol_fee() {
    let mut client = setup_distributor(250);
    let mut tokens = Balances::new();
    tokens.mint(SENDER, 10000);
    let recipients = people(10, 2);

    let outcome = client.distribute_equal(SENDER, SENDER, TOKEN, 1000, &recipients).unwrap();
    tokens.apply(&outcome);

    assert_eq!(tokens.balance(recipients[0]), 500);
    assert_eq!(tokens.balance(recipients[1]), 500);
    assert_eq!(tokens.balance(FEE_ADDRESS), 25);
    assert_eq!(tokens.balance(SENDER), 8975);
}

#[test]
fn test_distribute_weighted_with_protocol_fee() {
    let mut client = setup_distributor(250);
    let mut tokens = Balances::new();
    tokens.mint(SENDER, 10000);
    let recipients = people(10, 2);
    let amounts = vec![400i128, 600];

    let outcome =
        client.distribute_weighted(SENDER, SENDER, TOKEN, &recipients, &amounts).unwrap();
    tokens.apply(&outcome);

    assert_eq!(tokens.balance(recipients[0]), 400);
    assert_eq!(tokens.balance(recipients[1]), 600);
    assert_eq!(tokens.balance(FEE_ADDRESS), 25);
}

#[test]
fn test_update_global_stats() {
    let mut client = setup_distributor(250);
    let recipients = people(10, 1);

    assert_eq!(client.get_total_distributions(), 0);
    assert_eq!(client.get_total_distributed_amount(), 0);

    client.distribute_equal(SENDER, SENDER, TOKEN, 1000, &recipients).unwrap();
    assert_eq!(client.get_total_distributions(), 1);
    assert_eq!(client.get_total_distributed_amount(), 1000);

    client.distribute_equal(SENDER, SENDER, TOKEN, 2500, &recipients).unwrap();
    assert_eq!(client.get_total_distributions(), 2);
    assert_eq!(client.get_total_distributed_amount(), 3500);

    client.distribute_equal(SENDER, SENDER, TOKEN, 500, &recipients).unwrap();
    assert_eq!(client.get_total_distributions(), 3);
    assert_eq!(client.get_total_distributed_amount(), 4000);

    client.distribute_weighted(SENDER, SENDER, TOKEN, &recipients, &vec![300]).unwrap();
    assert_eq!(client.get_total_distributions(), 4);
    assert_eq!(client.get_total_distributed_amount(), 4300);
}

#[test]
fn test_update_token_statistics() {
    let mut client = setup_distributor(250);
    let recipients = people(10, 1);

    client.distribute_equal(SENDER, SENDER, TOKEN, 1000, &recipients).unwrap();
    client.distribute_equal(SENDER, SENDER, TOKEN, 2000, &recipients).unwrap();

    let token_stats = client.get_token_stats(TOKEN);
    assert!(token_stats.is_some());
    let stats = token_stats.unwrap();
    assert_eq!(stats.total_amount, 3000);
    assert_eq!(stats.distribution_count, 2);
    assert!(stats.last_time > 0);
}

#[test]
fn test_update_user_statistics() {
    let mut client = setup_distributor(250);
    let recipients = people(10, 1);

    client.distribute_equal(SENDER, SENDER, TOKEN, 500, &recipients).unwrap();
    client.distribute_equal(SENDER, SENDER, TOKEN, 1500, &recipients).unwrap();
    client.distribute_equal(SENDER, SENDER, TOKEN, 2000, &recipients).unwrap();

    let user_stats = client.get_user_stats(SENDER);
    assert!(user_stats.is_some());
    let stats = user_stats.unwrap();
    assert_eq!(stats.distributions_initiated, 3);
    assert_eq!(stats.total_amount, 4000);
}

#[test]
fn test_record_history() {
    let mut client = setup_distributor(250);
    client.set_timestamp(12345);
    let recipients = people(10, 2);

    client.distribute_equal(SENDER, SENDER, TOKEN, 1000, &recipients).unwrap();
    client.distribute_equal(SENDER, SENDER, TOKEN, 2000, &recipients).unwrap();

    let history = client.get_distribution_history(0, 2);
    assert_eq!(history.len(), 2);

    let record1 = history[0];
    assert_eq!(record1.sender, SENDER);
    assert_eq!(record1.token, TOKEN);
    assert_eq!(record1.amount, 1000);
    assert_eq!(record1.recipients_count, 2);
    assert_eq!(record1.timestamp, 12345);

    let record2 = history[1];
    assert_eq!(record2.amount, 2000);
}

#[test]
fn test_set_protocol_fee() {
    let mut client = setup_distributor(250);
    client.set_protocol_fee(ADMIN, ADMIN, 500).unwrap();

    let mut tokens = Balances::new();
    tokens.mint(SENDER, 10000);
    let recipients = people(10, 1);

    let outcome = client.distribute_equal(SENDER, SENDER, TOKEN, 1000, &recipients).unwrap();
    tokens.apply(&outcome);
    assert_eq!(tokens.balance(FEE_ADDRESS), 50);
}

#[test]
fn test_zero_protocol_fee() {
    let mut client = setup_distributor(0);
    let mut tokens = Balances::new();
    tokens.mint(SENDER, 10000);
    let recipients = people(10, 1);

    let outcome = client.distribute_equal(SENDER, SENDER, TOKEN, 1000, &recipients).unwrap();
    tokens.apply(&outcome);
    assert_eq!(tokens.balance(FEE_ADDRESS), 0);
}

#[test]
fn test_distribute_weighted_zero_amount() {
    let mut client = setup_distributor(250);
    let recipients = people(10, 2);
    let amounts = vec![100i128, 0];
    assert_eq!(
        client.distribute_weighted(SENDER, SENDER, TOKEN, &recipients, &amounts).unwrap_err(),
        DistributionError::InvalidAmount
    );
    assert_eq!(client.get_total_distributions(), 0);
}

#[test]
fn test_distribute_equal_amount_too_small() {
    let mut client = setup_distributor(250);
    let recipients = people(10, 1000);
    assert_eq!(
        client.distribute_equal(SENDER, SENDER, TOKEN, 10, &recipients).unwrap_err(),
        DistributionError::AmountTooSmall
    );
}

#[test]
fn test_distribute_equal_empty_recipients() {
    let mut client = setup_distributor(250);
    let recipients: Vec<Address> = Vec::new();
    assert_eq!(
        client.distribute_equal(SENDER, SENDER, TOKEN, 1000, &recipients).unwrap_err(),
        DistributionError::NoRecipients
    );
}

#[test]
fn distribution_rejections_and_history_window() {
    let mut client = setup_distributor(250);
    let recipients = people(10, 2);
    assert_eq!(
        client.distribute_equal(ADMIN, SENDER, TOKEN, 1000, &recipients).unwrap_err(),
        DistributionError::Unauthorized
    );
    assert_eq!(
        client.distribute_equal(SENDER, SENDER, TOKEN, 0, &recipients).unwrap_err(),
        DistributionError::InvalidAmount
    );
    assert_eq!(
        client.distribute_weighted(SENDER, SENDER, TOKEN, &recipients, &vec![1]).unwrap_err(),
        DistributionError::LengthMismatch
    );
    assert_eq!(
        client
            .distribute_weighted(SENDER, SENDER, TOKEN, &recipients, &vec![i128::MAX, 1])
            .unwrap_err(),
        DistributionError::ArithmeticOverflow
    );
    assert_eq!(
        client.distribute_equal(SENDER, SENDER, TOKEN, i128::MAX, &recipients).unwrap_err(),
        DistributionError::ArithmeticOverflow
    );
    assert_eq!(client.set_protocol_fee(SENDER, SENDER, 1), Err(DistributionError::Unauthorized));
    assert_eq!(client.set_protocol_fee(SENDER, ADMIN, 1), Err(DistributionError::Unauthorized));
    assert_eq!(
        DistributorContract::new(0).set_protocol_fee(ADMIN, ADMIN, 1),
        Err(DistributionError::NotInitialized)
    );

    // 1001 split three ways leaves 2 with the sender; fee 25.
    let outcome = client.distribute_equal(SENDER, SENDER, TOKEN, 1001, &people(10, 3)).unwrap();
    assert_eq!(outcome.transfers.len(), 4);
    assert_eq!(outcome.transfers[0].to, FEE_ADDRESS);
    assert_eq!(outcome.transfers[0].amount, 25);
    assert!(outcome.transfers[1..].iter().all(|t| t.amount == 333));

    client.distribute_weighted(SENDER, SENDER, TOKEN, &recipients, &vec![5, 6]).unwrap();
    assert_eq!(client.get_distribution_history(1, 10).len(), 1);
    assert_eq!(client.get_distribution_history(1, 10)[0].amount, 11);
    assert_eq!(client.get_distribution_history(2, 1).len(), 0);
    assert_eq!(client.get_distribution_history(0, u64::MAX).len(), 2);
    assert_eq!(client.get_token_stats(Address(999)), None);
    assert_eq!(client.get_user_stats(ADMIN), None);
}

#[test]
fn restore_keeps_state_and_rejects_inconsistent_totals() {
    let mut client = setup_distributor(250);
    client.set_timestamp(7);
    client.distribute_equal(SENDER, SENDER, TOKEN, 1000, &people(10, 2)).unwrap();
    let token_stats = client.get_token_stats(TOKEN).unwrap();
    let user_stats = client.get_user_stats(SENDER).unwrap();
    let history = client.get_distribution_history(0, 10);

    let mut back = DistributorContract::restore(
        Some(ADMIN),
        250,
        Some(FEE_ADDRESS),
        1,
        1000,
        vec![(TOKEN.0, token_stats)],
        vec![(SENDER.0, user_stats)],
        history.clone(),
        8,
    )
    .unwrap();
    assert_eq!(back.get_token_stats(TOKEN), Some(token_stats));
    assert_eq!(back.get_user_stats(SENDER), Some(user_stats));
    assert_eq!(back.get_distribution_history(0, 10), history);
    back.distribute_equal(SENDER, SENDER, TOKEN, 500, &people(10, 2)).unwrap();
    assert_eq!(back.get_token_stats(TOKEN).unwrap().total_amount, 1500);
    assert_eq!(back.get_token_stats(TOKEN).unwrap().last_time, 8);
    assert_eq!(back.get_distribution_history(1, 1)[0].amount, 500);

    assert!(DistributorContract::restore(
        Some(ADMIN),
        250,
        Some(FEE_ADDRESS),
        1,
        999,
        vec![(TOKEN.0, token_stats)],
        vec![],
        vec![],
        8
    )
    .is_none());
    assert!(DistributorContract::restore(Some(ADMIN), 0, None, 0, 0, vec![], vec![], vec![], 0)
        .is_none());
}
