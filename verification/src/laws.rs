//! The general laws of the library, stated over the same specification
//! functions its contracts use and proved for all inputs.

use vstd::prelude::*;

use crate::increments::increment_of;
use crate::increments::key_sum;
use crate::increments::lemma_fold_contains;
use crate::increments::lemma_fold_increment_of;
use crate::primitives::Address;
use crate::primitives::ChainSpec;
use crate::primitives::GWEI_TO_WEI;
use crate::primitives::Header;
use crate::primitives::Withdrawal;
use crate::rewards::RewardProvider;
use crate::rewards::ommer_contributions;
use crate::rewards::reward_increment_map;
use crate::withdrawals::lemma_withdrawal_contributions_nonneg;
use crate::withdrawals::withdrawal_contribution;
use crate::withdrawals::withdrawal_contributions;
use crate::withdrawals::withdrawals_increment_map;

verus! {

/// Hardfork activation is monotonic in the timestamp: within one chain
/// configuration, a gate that is active at some timestamp is active at
/// every later one.
pub proof fn lemma_activation_monotonic(chain_spec: ChainSpec, t1: u64, t2: u64)
    requires
        t1 <= t2,
    ensures
        chain_spec.spec_is_shanghai_active_at_timestamp(t1)
            ==> chain_spec.spec_is_shanghai_active_at_timestamp(t2),
        chain_spec.spec_is_cancun_active_at_timestamp(t1)
            ==> chain_spec.spec_is_cancun_active_at_timestamp(t2),
{
}

/// When the provider answers "no reward" — as it does once the chain has
/// transitioned past proof-of-work — reward processing contributes nothing:
/// the resulting increment map is empty.
pub proof fn lemma_no_base_reward_empty<P: RewardProvider>(
    provider: P,
    chain_spec: ChainSpec,
    block_number: u64,
    block_difficulty: u128,
    beneficiary: Address,
    total_difficulty: u128,
    ommers: Seq<Header>,
)
    requires
        provider.spec_base_block_reward(
            chain_spec,
            block_number,
            block_difficulty,
            total_difficulty,
        ) is None,
    ensures
        reward_increment_map(
            provider,
            chain_spec,
            block_number,
            block_difficulty,
            beneficiary,
            total_difficulty,
            Map::<Address, int>::empty(),
            ommers,
        ) == Map::<Address, int>::empty(),
{
}

/// Each identity's reward increment is the sum of its own ommer
/// contributions, plus the full block reward if it is the main
/// beneficiary. In particular, a beneficiary that also appears among the
/// ommers has its increments added, never overwritten, and summing this
/// equation over the rewarded identities gives the provider's total
/// issuance for the block.
pub proof fn lemma_reward_increment_value<P: RewardProvider>(
    provider: P,
    chain_spec: ChainSpec,
    block_number: u64,
    block_difficulty: u128,
    beneficiary: Address,
    total_difficulty: u128,
    ommers: Seq<Header>,
    base: u128,
    a: Address,
)
    requires
        provider.spec_base_block_reward(
            chain_spec,
            block_number,
            block_difficulty,
            total_difficulty,
        ) == Some(base),
    ensures
        increment_of(
            reward_increment_map(
                provider,
                chain_spec,
                block_number,
                block_difficulty,
                beneficiary,
                total_difficulty,
                Map::<Address, int>::empty(),
                ommers,
            ),
            a,
        ) == key_sum(ommer_contributions(provider, base, block_number, ommers), a) + (if a
            == beneficiary {
            provider.spec_block_reward(base, ommers.len() as usize) as int
        } else {
            0
        }),
{
    let contribs = ommer_contributions(provider, base, block_number, ommers);
    lemma_fold_increment_of(Map::<Address, int>::empty(), contribs, a);
}

/// The sum of the amounts that the withdrawals owe to one identity.
pub open spec fn withdrawal_amounts_at(ws: Seq<Withdrawal>, a: Address) -> int
    decreases ws.len(),
{
    if ws.len() == 0 {
        0
    } else {
        withdrawal_amounts_at(ws.drop_last(), a) + (if ws.last().address == a {
            ws.last().amount as int
        } else {
            0
        })
    }
}

/// An identity's withdrawal contributions sum to its withdrawn amounts,
/// converted to the native smallest unit.
pub proof fn lemma_withdrawal_key_sum(ws: Seq<Withdrawal>, a: Address)
    ensures
        key_sum(withdrawal_contributions(ws), a) == withdrawal_amounts_at(ws, a) * (
        GWEI_TO_WEI as int),
    decreases ws.len(),
{
    let contribs = withdrawal_contributions(ws);
    if ws.len() > 0 {
        lemma_withdrawal_key_sum(ws.drop_last(), a);
        assert(contribs.drop_last() =~= withdrawal_contributions(ws.drop_last())) by {
            assert(forall|i: int|
                0 <= i < ws.len() - 1 ==> contribs[i] == withdrawal_contribution(ws[i])
                    && withdrawal_contributions(ws.drop_last())[i] == withdrawal_contribution(
                    ws.drop_last()[i],
                ) && ws.drop_last()[i] == ws[i]);
        }
        assert(contribs.last() == withdrawal_contribution(ws.last())) by {
            assert(contribs[ws.len() - 1] == withdrawal_contribution(ws[ws.len() - 1]));
        }
    }
}

/// With the withdrawal gate active, an identity appears in the output map
/// exactly when some withdrawal with a strictly positive amount names it:
/// zero-amount withdrawals are skipped and create no entry. While the
/// fork is inactive, the map stays what it was.
pub proof fn lemma_withdrawal_entry_presence(
    chain_spec: ChainSpec,
    block_timestamp: u64,
    ws: Seq<Withdrawal>,
    a: Address,
)
    ensures
        withdrawals_increment_map(chain_spec, block_timestamp, Map::<Address, int>::empty(), ws)
            .contains_key(a) <==> (chain_spec.spec_is_shanghai_active_at_timestamp(
            block_timestamp,
        ) && exists|i: int| 0 <= i < ws.len() && ws[i].address == a && ws[i].amount > 0),
{
    if chain_spec.spec_is_shanghai_active_at_timestamp(block_timestamp) {
        let contribs = withdrawal_contributions(ws);
        lemma_withdrawal_contributions_nonneg(ws);
        lemma_fold_contains(Map::<Address, int>::empty(), contribs, a);
        assert forall|i: int| 0 <= i < ws.len() implies (contribs[i].0 == a && contribs[i].1 > 0)
            <==> (ws[i].address == a && ws[i].amount > 0) by {
            assert(contribs[i] == withdrawal_contribution(ws[i]));
        }
        if exists|i: int| 0 <= i < contribs.len() && contribs[i].0 == a && contribs[i].1 > 0 {
            let i = choose|i: int|
                0 <= i < contribs.len() && contribs[i].0 == a && contribs[i].1 > 0;
            assert(ws[i].address == a && ws[i].amount > 0);
        }
        if exists|i: int| 0 <= i < ws.len() && ws[i].address == a && ws[i].amount > 0 {
            let i = choose|i: int| 0 <= i < ws.len() && ws[i].address == a && ws[i].amount > 0;
            assert(contribs[i].0 == a && contribs[i].1 > 0);
        }
    }
}

/// With the withdrawal gate active, each identity's entry is exactly its
/// withdrawn amounts converted by `GWEI_TO_WEI`; with an inactive fork
/// the output map is empty regardless of the amounts.
pub proof fn lemma_withdrawal_entry_value(
    chain_spec: ChainSpec,
    block_timestamp: u64,
    ws: Seq<Withdrawal>,
    a: Address,
)
    ensures
        chain_spec.spec_is_shanghai_active_at_timestamp(block_timestamp) ==> increment_of(
            withdrawals_increment_map(chain_spec, block_timestamp, Map::<Address, int>::empty(), ws),
            a,
        ) == withdrawal_amounts_at(ws, a) * (GWEI_TO_WEI as int),
        !chain_spec.spec_is_shanghai_active_at_timestamp(block_timestamp)
            ==> withdrawals_increment_map(
            chain_spec,
            block_timestamp,
            Map::<Address, int>::empty(),
            ws,
        ) == Map::<Address, int>::empty(),
{
    if chain_spec.spec_is_shanghai_active_at_timestamp(block_timestamp) {
        let contribs = withdrawal_contributions(ws);
        lemma_fold_increment_of(Map::<Address, int>::empty(), contribs, a);
        lemma_withdrawal_key_sum(ws, a);
    }
}

} // verus!
