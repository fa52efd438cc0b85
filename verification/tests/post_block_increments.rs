use state_change::increments::BalanceIncrements;
use state_change::primitives::Address;
use state_change::primitives::ChainSpec;
use state_change::primitives::Header;
use state_change::primitives::Withdrawal;
use state_change::post_block::post_block_balance_increments;
use state_change::rewards::FixedRewardProvider;
use state_change::rewards::post_block_reward_increments;
use state_change::withdrawals::insert_post_block_withdrawals_balance_increments;
use state_change::withdrawals::post_block_withdrawals_balance_increments;

fn addr(tag: u8) -> Address {
    Address { bytes: [tag; 20] }
}

fn pre_withdrawals() -> ChainSpec {
    ChainSpec { shanghai_time: None, cancun_time: None }
}

fn with_withdrawals(t: u64) -> ChainSpec {
    ChainSpec { shanghai_time: Some(t), cancun_time: None }
}

#[test]
fn no_reward_yields_empty_map() {
    let provider = FixedRewardProvider { base: None, ommer: 3, block: 7 };
    let ommers = [Header { number: 9, beneficiary: addr(1) }];
    let m = post_block_balance_increments(
        &provider,
        &pre_withdrawals(),
        10,
        1000,
        addr(2),
        50,
        5000,
        &ommers,
        None,
    );
    assert!(m.is_empty());
    assert_eq!(m.len(), 0);
    assert_eq!(m.get(&addr(1)), 0);
    assert_eq!(m.get(&addr(2)), 0);
}

#[test]
fn ommer_and_block_rewards_split() {
    // One ommer with a distinct beneficiary: the ommer gets its reward,
    // the main beneficiary the full block reward.
    let provider = FixedRewardProvider { base: Some(500), ommer: 375, block: 515 };
    let o = addr(11);
    let p = addr(12);
    let ommers = [Header { number: 9, beneficiary: o }];
    let m = post_block_balance_increments(
        &provider,
        &pre_withdrawals(),
        10,
        1000,
        p,
        50,
        5000,
        &ommers,
        None,
    );
    assert_eq!(m.len(), 2);
    assert_eq!(m.get(&o), 375);
    assert_eq!(m.get(&p), 515);
}

#[test]
fn shared_beneficiary_sums_not_overwrites() {
    // The main beneficiary is also an ommer beneficiary: the increments add.
    let provider = FixedRewardProvider { base: Some(500), ommer: 375, block: 515 };
    let p = addr(13);
    let ommers = [Header { number: 9, beneficiary: p }];
    let m = post_block_balance_increments(
        &provider,
        &pre_withdrawals(),
        10,
        1000,
        p,
        50,
        5000,
        &ommers,
        None,
    );
    assert_eq!(m.len(), 1);
    assert_eq!(m.get(&p), 375 + 515);
}

#[test]
fn reward_increments_sum_to_issuance() {
    // Two ommers plus the block reward: everything credited sums to the
    // provider's total issuance for the block.
    let provider = FixedRewardProvider { base: Some(500), ommer: 375, block: 530 };
    let o1 = addr(21);
    let o2 = addr(22);
    let p = addr(23);
    let ommers = [
        Header { number: 8, beneficiary: o1 },
        Header { number: 9, beneficiary: o2 },
    ];
    let m = post_block_balance_increments(
        &provider,
        &pre_withdrawals(),
        10,
        1000,
        p,
        50,
        5000,
        &ommers,
        None,
    );
    let issuance: u128 = 375 + 375 + 530;
    assert_eq!(m.get(&o1) + m.get(&o2) + m.get(&p), issuance);
}

#[test]
fn zero_amount_withdrawal_creates_no_entry() {
    // The scenario {A: 0, B: 5} with withdrawals active gives
    // exactly {B: 5_000_000_000}.
    let a = addr(31);
    let b = addr(32);
    let ws = [
        Withdrawal { address: a, amount: 0 },
        Withdrawal { address: b, amount: 5 },
    ];
    let m = post_block_withdrawals_balance_increments(&with_withdrawals(100), 100, &ws);
    assert_eq!(m.len(), 1);
    assert_eq!(m.get(&b), 5_000_000_000);
    assert_eq!(m.get(&a), 0);
}

#[test]
fn withdrawal_amount_converted_to_wei() {
    let b = addr(33);
    let ws = [Withdrawal { address: b, amount: 7 }];
    let m = post_block_withdrawals_balance_increments(&with_withdrawals(0), 12345, &ws);
    assert_eq!(m.get(&b), 7_000_000_000);
    assert_eq!(Withdrawal { address: b, amount: 1 }.amount_wei(), 1_000_000_000);
}

#[test]
fn withdrawals_inactive_gate_yields_empty_map() {
    let b = addr(34);
    let ws = [Withdrawal { address: b, amount: 900 }];
    // Never scheduled.
    let m = post_block_withdrawals_balance_increments(&pre_withdrawals(), 100, &ws);
    assert!(m.is_empty());
    // Scheduled later than the block's timestamp.
    let m = post_block_withdrawals_balance_increments(&with_withdrawals(101), 100, &ws);
    assert!(m.is_empty());
    // Active exactly at the activation timestamp.
    let m = post_block_withdrawals_balance_increments(&with_withdrawals(100), 100, &ws);
    assert_eq!(m.get(&b), 900_000_000_000);
}

#[test]
fn withdrawals_to_same_address_accumulate() {
    let b = addr(35);
    let ws = [
        Withdrawal { address: b, amount: 5 },
        Withdrawal { address: b, amount: 6 },
    ];
    let m = post_block_withdrawals_balance_increments(&with_withdrawals(0), 1, &ws);
    assert_eq!(m.len(), 1);
    assert_eq!(m.get(&b), 11_000_000_000);
}

#[test]
fn insert_variant_accumulates_into_existing_map() {
    let b = addr(36);
    let mut m = BalanceIncrements::new();
    m.accumulate(b, 40);
    let ws = [Withdrawal { address: b, amount: 2 }];
    insert_post_block_withdrawals_balance_increments(
        &with_withdrawals(0),
        7,
        Some(&ws),
        &mut m,
    );
    assert_eq!(m.get(&b), 2_000_000_040);
    // An absent withdrawal list leaves the map as it is.
    insert_post_block_withdrawals_balance_increments(&with_withdrawals(0), 7, None, &mut m);
    assert_eq!(m.len(), 1);
    assert_eq!(m.get(&b), 2_000_000_040);
}

#[test]
fn rewards_and_withdrawals_combine() {
    let provider = FixedRewardProvider { base: Some(500), ommer: 375, block: 515 };
    let o = addr(41);
    let p = addr(42);
    let ommers = [Header { number: 9, beneficiary: o }];
    // The main beneficiary also withdraws: both sources add up.
    let ws = [Withdrawal { address: p, amount: 3 }];
    let m = post_block_balance_increments(
        &provider,
        &with_withdrawals(0),
        10,
        1000,
        p,
        50,
        5000,
        &ommers,
        Some(&ws),
    );
    assert_eq!(m.len(), 2);
    assert_eq!(m.get(&o), 375);
    assert_eq!(m.get(&p), 515 + 3_000_000_000);
}

#[test]
fn reward_only_map_matches_provider_answers() {
    let provider = FixedRewardProvider { base: Some(400), ommer: 350, block: 412 };
    let o = addr(61);
    let p = addr(62);
    let ommers = [Header { number: 9, beneficiary: o }];
    let m = post_block_reward_increments(&provider, &pre_withdrawals(), 10, 1000, p, 5000, &ommers);
    assert_eq!(m.len(), 2);
    assert_eq!(m.get(&o), 350);
    assert_eq!(m.get(&p), 412);
}

#[test]
fn accumulator_basics() {
    let a = addr(51);
    let b = addr(52);
    let mut m = BalanceIncrements::new();
    assert!(m.is_empty());
    // Zero contributions never create entries.
    m.accumulate(a, 0);
    assert!(m.is_empty());
    m.accumulate(a, 10);
    m.accumulate(b, 20);
    m.accumulate(a, 5);
    assert_eq!(m.len(), 2);
    assert_eq!(m.get(&a), 15);
    assert_eq!(m.get(&b), 20);
}
