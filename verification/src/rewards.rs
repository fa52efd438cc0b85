//! Block-production rewards: the base reward, one reward per ommer, and the
//! full block reward for the main beneficiary.
//!
//! The reward formulas themselves belong to an external provider, injected
//! through the [`RewardProvider`] trait; this crate only accumulates what
//! the provider answers. A provider that answers "no reward" (as it does
//! once the chain has left proof-of-work) makes reward processing a
//! legitimate no-op, not an error.

use vstd::prelude::*;

use crate::increments::BalanceIncrements;
use crate::increments::add_increment;
use crate::increments::fold_increments;
use crate::increments::increment_of;
use crate::increments::lemma_fold_increment_of;
use crate::increments::lemma_fold_take_succ;
use crate::increments::lemma_key_sum_nonneg;
use crate::increments::lemma_key_sum_take_le;
use crate::increments::nonneg_amounts;
use crate::increments::total_sum;
use crate::primitives::Address;
use crate::primitives::ChainSpec;
use crate::primitives::Header;

verus! {

/// The external reward-formula provider. Implementations answer what each
/// reward is; this crate never computes a formula itself. The executable
/// methods must agree with the specification functions, so every
/// implementation carries its answers into the contracts of the functions
/// that call it.
pub trait RewardProvider: Sized {
    /// The base block reward, or `None` when the block earns no
    /// proof-of-work reward (for instance past the merge).
    spec fn spec_base_block_reward(
        &self,
        chain_spec: ChainSpec,
        block_number: u64,
        block_difficulty: u128,
        total_difficulty: u128,
    ) -> Option<u128>;

    /// The reward owed to one ommer's beneficiary.
    spec fn spec_ommer_reward(
        &self,
        base_block_reward: u128,
        block_number: u64,
        ommer_block_number: u64,
    ) -> u128;

    /// The full reward owed to the main beneficiary, given how many ommers
    /// the block carries.
    spec fn spec_block_reward(&self, base_block_reward: u128, ommer_count: usize) -> u128;

    fn base_block_reward(
        &self,
        chain_spec: &ChainSpec,
        block_number: u64,
        block_difficulty: u128,
        total_difficulty: u128,
    ) -> (r: Option<u128>)
        ensures
            r == self.spec_base_block_reward(
                *chain_spec,
                block_number,
                block_difficulty,
                total_difficulty,
            ),
    ;

    fn ommer_reward(
        &self,
        base_block_reward: u128,
        block_number: u64,
        ommer_block_number: u64,
    ) -> (r: u128)
        ensures
            r == self.spec_ommer_reward(base_block_reward, block_number, ommer_block_number),
    ;

    fn block_reward(&self, base_block_reward: u128, ommer_count: usize) -> (r: u128)
        ensures
            r == self.spec_block_reward(base_block_reward, ommer_count),
    ;
}

/// A provider that answers fixed amounts irrespective of the inputs: `None`
/// or a configured base reward, one configured amount per ommer, and one
/// for the full block reward. It gives the collaborator interface a
/// verified in-crate implementation, for tests and for callers that model
/// flat subsidies.
pub struct FixedRewardProvider {
    pub base: Option<u128>,
    pub ommer: u128,
    pub block: u128,
}

impl RewardProvider for FixedRewardProvider {
    open spec fn spec_base_block_reward(
        &self,
        chain_spec: ChainSpec,
        block_number: u64,
        block_difficulty: u128,
        total_difficulty: u128,
    ) -> Option<u128> {
        self.base
    }

    open spec fn spec_ommer_reward(
        &self,
        base_block_reward: u128,
        block_number: u64,
        ommer_block_number: u64,
    ) -> u128 {
        self.ommer
    }

    open spec fn spec_block_reward(&self, base_block_reward: u128, ommer_count: usize) -> u128 {
        self.block
    }

    fn base_block_reward(
        &self,
        chain_spec: &ChainSpec,
        block_number: u64,
        block_difficulty: u128,
        total_difficulty: u128,
    ) -> (r: Option<u128>) {
        self.base
    }

    fn ommer_reward(
        &self,
        base_block_reward: u128,
        block_number: u64,
        ommer_block_number: u64,
    ) -> (r: u128) {
        self.ommer
    }

    fn block_reward(&self, base_block_reward: u128, ommer_count: usize) -> (r: u128) {
        self.block
    }
}

/// The contributions the ommers make: each ommer's beneficiary receives its
/// ommer reward.
pub open spec fn ommer_contributions<P: RewardProvider>(
    provider: P,
    base_block_reward: u128,
    block_number: u64,
    ommers: Seq<Header>,
) -> Seq<(Address, int)> {
    ommers.map_values(
        |o: Header|
            (o.beneficiary, provider.spec_ommer_reward(base_block_reward, block_number, o.number) as int),
    )
}

/// What reward processing does to a balance-increment map: nothing when the
/// provider answers no base reward; otherwise one accumulation per ommer
/// and then the full block reward for the main beneficiary. A beneficiary
/// that appears several times (as several ommers, or as both an ommer and
/// the main beneficiary) has its increments summed, never overwritten.
pub open spec fn reward_increment_map<P: RewardProvider>(
    provider: P,
    chain_spec: ChainSpec,
    block_number: u64,
    block_difficulty: u128,
    beneficiary: Address,
    total_difficulty: u128,
    prev: Map<Address, int>,
    ommers: Seq<Header>,
) -> Map<Address, int> {
    match provider.spec_base_block_reward(
        chain_spec,
        block_number,
        block_difficulty,
        total_difficulty,
    ) {
        Option::Some(base) => add_increment(
            fold_increments(prev, ommer_contributions(provider, base, block_number, ommers)),
            beneficiary,
            provider.spec_block_reward(base, ommers.len() as usize) as int,
        ),
        Option::None => prev,
    }
}

/// The total issuance of the block: all ommer rewards plus the full block
/// reward, or zero when the provider answers no base reward.
pub open spec fn block_issuance<P: RewardProvider>(
    provider: P,
    chain_spec: ChainSpec,
    block_number: u64,
    block_difficulty: u128,
    total_difficulty: u128,
    ommers: Seq<Header>,
) -> int {
    match provider.spec_base_block_reward(
        chain_spec,
        block_number,
        block_difficulty,
        total_difficulty,
    ) {
        Option::Some(base) => total_sum(
            ommer_contributions(provider, base, block_number, ommers),
        ) + provider.spec_block_reward(base, ommers.len() as usize),
        Option::None => 0,
    }
}

/// Ommer contributions are amounts, hence non-negative.
pub proof fn lemma_ommer_contributions_nonneg<P: RewardProvider>(
    provider: P,
    base_block_reward: u128,
    block_number: u64,
    ommers: Seq<Header>,
)
    ensures
        nonneg_amounts(ommer_contributions(provider, base_block_reward, block_number, ommers)),
        ommer_contributions(provider, base_block_reward, block_number, ommers).len()
            == ommers.len(),
{
    let contribs = ommer_contributions(provider, base_block_reward, block_number, ommers);
    assert forall|i: int| 0 <= i < ommers.len() implies contribs[i].1 >= 0 by {
        assert(contribs[i] == (
            ommers[i].beneficiary,
            provider.spec_ommer_reward(base_block_reward, block_number, ommers[i].number) as int,
        ));
    }
}

/// Applies the block's reward increments to the given accumulator: asks the
/// provider for the base reward, and when one is owed, credits every
/// ommer's beneficiary and then the main beneficiary. A provider answering
/// `None` makes this a no-op.
pub fn insert_post_block_reward_increments<P: RewardProvider>(
    provider: &P,
    chain_spec: &ChainSpec,
    block_number: u64,
    block_difficulty: u128,
    beneficiary: Address,
    total_difficulty: u128,
    ommers: &[Header],
    balance_increments: &mut BalanceIncrements,
)
    requires
        old(balance_increments).wf(),
        forall|a: Address|
            increment_of(
                reward_increment_map(
                    *provider,
                    *chain_spec,
                    block_number,
                    block_difficulty,
                    beneficiary,
                    total_difficulty,
                    old(balance_increments)@,
                    ommers@,
                ),
                a,
            ) <= u128::MAX,
    ensures
        final(balance_increments).wf(),
        final(balance_increments)@ == reward_increment_map(
            *provider,
            *chain_spec,
            block_number,
            block_difficulty,
            beneficiary,
            total_difficulty,
            old(balance_increments)@,
            ommers@,
        ),
        final(balance_increments).total() == old(balance_increments).total() + block_issuance(
            *provider,
            *chain_spec,
            block_number,
            block_difficulty,
            total_difficulty,
            ommers@,
        ),
{
    let base_opt = provider.base_block_reward(
        chain_spec,
        block_number,
        block_difficulty,
        total_difficulty,
    );
    if let Some(base) = base_opt {
        let ghost m0 = balance_increments@;
        let ghost t0 = balance_increments.total();
        let ghost contribs = ommer_contributions(*provider, base, block_number, ommers@);
        let ghost reward_map = reward_increment_map(
            *provider,
            *chain_spec,
            block_number,
            block_difficulty,
            beneficiary,
            total_difficulty,
            m0,
            ommers@,
        );
        proof {
            lemma_ommer_contributions_nonneg(*provider, base, block_number, ommers@);
            assert forall|a: Address|
                increment_of(fold_increments(m0, contribs), a) <= u128::MAX by {
                assert(increment_of(reward_map, a) <= u128::MAX);
                lemma_key_sum_nonneg(contribs, a);
            }
        }
        let n = ommers.len();
        let mut i: usize = 0;
        while i < n
            invariant
                n == ommers@.len(),
                i <= n,
                m0 == old(balance_increments)@,
                t0 == old(balance_increments).total(),
                contribs == ommer_contributions(*provider, base, block_number, ommers@),
                nonneg_amounts(contribs),
                contribs.len() == n,
                balance_increments.wf(),
                balance_increments@ == fold_increments(m0, contribs.take(i as int)),
                balance_increments.total() == t0 + total_sum(contribs.take(i as int)),
                forall|a: Address| increment_of(fold_increments(m0, contribs), a) <= u128::MAX,
            decreases n - i,
        {
            let ommer = ommers[i];
            let reward = provider.ommer_reward(base, block_number, ommer.number);
            proof {
                assert(contribs[i as int] == (
                    ommers@[i as int].beneficiary,
                    provider.spec_ommer_reward(base, block_number, ommers@[i as int].number) as int,
                ));
                lemma_fold_take_succ(m0, contribs, i as int);
                lemma_fold_increment_of(m0, contribs.take(i as int), ommer.beneficiary);
                lemma_fold_increment_of(m0, contribs.take(i + 1 as int), ommer.beneficiary);
                lemma_fold_increment_of(m0, contribs, ommer.beneficiary);
                lemma_key_sum_take_le(contribs, i + 1 as int, ommer.beneficiary);
            }
            balance_increments.accumulate(ommer.beneficiary, reward);
            proof {
                assert(balance_increments@ == fold_increments(m0, contribs.take(i + 1 as int)));
            }
            i = i + 1;
        }
        proof {
            assert(contribs.take(n as int) =~= contribs);
        }
        let full_reward = provider.block_reward(base, n);
        proof {
            assert(reward_map == add_increment(
                fold_increments(m0, contribs),
                beneficiary,
                full_reward as int,
            ));
            assert(increment_of(reward_map, beneficiary) <= u128::MAX);
        }
        balance_increments.accumulate(beneficiary, full_reward);
    }
}

/// Returns the map of identities to balance increments that the block's
/// production rewards produce: one entry per rewarded beneficiary, empty
/// when the provider owes no base reward.
pub fn post_block_reward_increments<P: RewardProvider>(
    provider: &P,
    chain_spec: &ChainSpec,
    block_number: u64,
    block_difficulty: u128,
    beneficiary: Address,
    total_difficulty: u128,
    ommers: &[Header],
) -> (balance_increments: BalanceIncrements)
    requires
        forall|a: Address|
            increment_of(
                reward_increment_map(
                    *provider,
                    *chain_spec,
                    block_number,
                    block_difficulty,
                    beneficiary,
                    total_difficulty,
                    Map::<Address, int>::empty(),
                    ommers@,
                ),
                a,
            ) <= u128::MAX,
    ensures
        balance_increments.wf(),
        balance_increments@ == reward_increment_map(
            *provider,
            *chain_spec,
            block_number,
            block_difficulty,
            beneficiary,
            total_difficulty,
            Map::<Address, int>::empty(),
            ommers@,
        ),
        balance_increments.total() == block_issuance(
            *provider,
            *chain_spec,
            block_number,
            block_difficulty,
            total_difficulty,
            ommers@,
        ),
{
    let mut balance_increments = BalanceIncrements::new();
    insert_post_block_reward_increments(
        provider,
        chain_spec,
        block_number,
        block_difficulty,
        beneficiary,
        total_difficulty,
        ommers,
        &mut balance_increments,
    );
    balance_increments
}

} // verus!
