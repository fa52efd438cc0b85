//! The combined end-of-block balance changes: block rewards first, then
//! withdrawals, accumulated into one balance-increment map that the caller
//! applies to account balances.

use vstd::prelude::*;

use crate::increments::BalanceIncrements;
use crate::increments::increment_of;
use crate::increments::lemma_fold_increment_of;
use crate::increments::lemma_key_sum_nonneg;
use crate::primitives::Address;
use crate::primitives::ChainSpec;
use crate::primitives::Header;
use crate::primitives::Withdrawal;
use crate::rewards::RewardProvider;
use crate::rewards::block_issuance;
use crate::rewards::insert_post_block_reward_increments;
use crate::rewards::reward_increment_map;
use crate::withdrawals::insert_post_block_withdrawals_balance_increments;
use crate::withdrawals::lemma_withdrawal_contributions_nonneg;
use crate::withdrawals::opt_withdrawals;
use crate::withdrawals::withdrawal_contributions;
use crate::withdrawals::withdrawals_increment_map;
use crate::withdrawals::withdrawals_total;

verus! {

/// All balance increments of the block: the reward increments, then the
/// withdrawal increments accumulated on top of them.
pub open spec fn post_block_increment_map<P: RewardProvider>(
    provider: P,
    chain_spec: ChainSpec,
    block_number: u64,
    block_difficulty: u128,
    beneficiary: Address,
    block_timestamp: u64,
    total_difficulty: u128,
    ommers: Seq<Header>,
    withdrawals: Seq<Withdrawal>,
) -> Map<Address, int> {
    withdrawals_increment_map(
        chain_spec,
        block_timestamp,
        reward_increment_map(
            provider,
            chain_spec,
            block_number,
            block_difficulty,
            beneficiary,
            total_difficulty,
            Map::<Address, int>::empty(),
            ommers,
        ),
        withdrawals,
    )
}

/// Collects all balance changes at the end of the block: block and ommer
/// rewards if the provider still owes any, then withdrawals if their gate
/// is active. Identities appearing in several roles have their increments
/// summed. Total over its documented inputs: no error conditions exist.
pub fn post_block_balance_increments<P: RewardProvider>(
    provider: &P,
    chain_spec: &ChainSpec,
    block_number: u64,
    block_difficulty: u128,
    beneficiary: Address,
    block_timestamp: u64,
    total_difficulty: u128,
    ommers: &[Header],
    withdrawals: Option<&[Withdrawal]>,
) -> (balance_increments: BalanceIncrements)
    requires
        forall|a: Address|
            increment_of(
                post_block_increment_map(
                    *provider,
                    *chain_spec,
                    block_number,
                    block_difficulty,
                    beneficiary,
                    block_timestamp,
                    total_difficulty,
                    ommers@,
                    opt_withdrawals(withdrawals),
                ),
                a,
            ) <= u128::MAX,
    ensures
        balance_increments.wf(),
        balance_increments@ == post_block_increment_map(
            *provider,
            *chain_spec,
            block_number,
            block_difficulty,
            beneficiary,
            block_timestamp,
            total_difficulty,
            ommers@,
            opt_withdrawals(withdrawals),
        ),
        balance_increments.total() == block_issuance(
            *provider,
            *chain_spec,
            block_number,
            block_difficulty,
            total_difficulty,
            ommers@,
        ) + withdrawals_total(*chain_spec, block_timestamp, opt_withdrawals(withdrawals)),
{
    let mut balance_increments = BalanceIncrements::new();
    let ghost reward_map = reward_increment_map(
        *provider,
        *chain_spec,
        block_number,
        block_difficulty,
        beneficiary,
        total_difficulty,
        Map::<Address, int>::empty(),
        ommers@,
    );
    let ghost final_map = withdrawals_increment_map(
        *chain_spec,
        block_timestamp,
        reward_map,
        opt_withdrawals(withdrawals),
    );
    proof {
        assert forall|a: Address| increment_of(reward_map, a) <= u128::MAX by {
            assert(increment_of(
                post_block_increment_map(
                    *provider,
                    *chain_spec,
                    block_number,
                    block_difficulty,
                    beneficiary,
                    block_timestamp,
                    total_difficulty,
                    ommers@,
                    opt_withdrawals(withdrawals),
                ),
                a,
            ) <= u128::MAX);
            if chain_spec.spec_is_shanghai_active_at_timestamp(block_timestamp) {
                let wcontribs = withdrawal_contributions(opt_withdrawals(withdrawals));
                lemma_withdrawal_contributions_nonneg(opt_withdrawals(withdrawals));
                lemma_fold_increment_of(reward_map, wcontribs, a);
                lemma_key_sum_nonneg(wcontribs, a);
            }
        }
    }
    insert_post_block_reward_increments(
        provider,
        chain_spec,
        block_number,
        block_difficulty,
        beneficiary,
        total_difficulty,
        ommers,
        &mut balance_increments,
    );
    proof {
        assert(balance_increments@ == reward_map);
        assert forall|a: Address|
            increment_of(
                withdrawals_increment_map(
                    *chain_spec,
                    block_timestamp,
                    balance_increments@,
                    opt_withdrawals(withdrawals),
                ),
                a,
            ) <= u128::MAX by {
            assert(increment_of(
                post_block_increment_map(
                    *provider,
                    *chain_spec,
                    block_number,
                    block_difficulty,
                    beneficiary,
                    block_timestamp,
                    total_difficulty,
                    ommers@,
                    opt_withdrawals(withdrawals),
                ),
                a,
            ) <= u128::MAX);
        }
    }
    insert_post_block_withdrawals_balance_increments(
        chain_spec,
        block_timestamp,
        withdrawals,
        &mut balance_increments,
    );
    balance_increments
}

} // verus!
