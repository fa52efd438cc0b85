//! Crediting validator withdrawals, gated by the withdrawal-enabling
//! hardfork. Each withdrawal with a strictly positive amount contributes
//! `amount * GWEI_TO_WEI` to its destination identity; zero amounts are
//! valid but contribute nothing. While the fork is inactive, nothing at
//! all is credited.

use vstd::prelude::*;

use crate::increments::BalanceIncrements;
use crate::increments::fold_increments;
use crate::increments::increment_of;
use crate::increments::lemma_fold_increment_of;
use crate::increments::lemma_fold_take_succ;
use crate::increments::lemma_key_sum_take_le;
use crate::increments::nonneg_amounts;
use crate::increments::total_sum;
use crate::primitives::Address;
use crate::primitives::ChainSpec;
use crate::primitives::Withdrawal;

verus! {

/// The contribution a single withdrawal makes: its destination and its
/// amount in the native smallest unit (zero for a zero amount).
pub open spec fn withdrawal_contribution(w: Withdrawal) -> (Address, int) {
    (w.address, w.spec_amount_wei())
}

/// The contributions of a sequence of withdrawals, in order.
pub open spec fn withdrawal_contributions(ws: Seq<Withdrawal>) -> Seq<(Address, int)> {
    ws.map_values(|w: Withdrawal| withdrawal_contribution(w))
}

/// An optional slice of withdrawals, read as a sequence; absence means none.
pub open spec fn opt_withdrawals(ws: Option<&[Withdrawal]>) -> Seq<Withdrawal> {
    match ws {
        Some(w) => w@,
        None => Seq::empty(),
    }
}

/// What withdrawal processing does to a balance-increment map: nothing
/// while the fork is inactive, otherwise one accumulation per withdrawal.
pub open spec fn withdrawals_increment_map(
    chain_spec: ChainSpec,
    block_timestamp: u64,
    prev: Map<Address, int>,
    ws: Seq<Withdrawal>,
) -> Map<Address, int> {
    if chain_spec.spec_is_shanghai_active_at_timestamp(block_timestamp) {
        fold_increments(prev, withdrawal_contributions(ws))
    } else {
        prev
    }
}

/// The sum credited by withdrawal processing.
pub open spec fn withdrawals_total(
    chain_spec: ChainSpec,
    block_timestamp: u64,
    ws: Seq<Withdrawal>,
) -> int {
    if chain_spec.spec_is_shanghai_active_at_timestamp(block_timestamp) {
        total_sum(withdrawal_contributions(ws))
    } else {
        0
    }
}

/// Withdrawal contributions are amounts, hence non-negative.
pub proof fn lemma_withdrawal_contributions_nonneg(ws: Seq<Withdrawal>)
    ensures
        nonneg_amounts(withdrawal_contributions(ws)),
        withdrawal_contributions(ws).len() == ws.len(),
{
    assert forall|i: int| 0 <= i < ws.len() implies withdrawal_contributions(ws)[i].1 >= 0 by {
        assert(withdrawal_contributions(ws)[i] == withdrawal_contribution(ws[i]));
    }
}

/// Applies all withdrawal balance increments to the given accumulator, if
/// the withdrawal gate is active at the given timestamp.
///
/// Zero-valued withdrawals are skipped, not failed: they are valid entries
/// that contribute nothing.
pub fn insert_post_block_withdrawals_balance_increments(
    chain_spec: &ChainSpec,
    block_timestamp: u64,
    withdrawals: Option<&[Withdrawal]>,
    balance_increments: &mut BalanceIncrements,
)
    requires
        old(balance_increments).wf(),
        forall|a: Address|
            increment_of(
                withdrawals_increment_map(
                    *chain_spec,
                    block_timestamp,
                    old(balance_increments)@,
                    opt_withdrawals(withdrawals),
                ),
                a,
            ) <= u128::MAX,
    ensures
        final(balance_increments).wf(),
        final(balance_increments)@ == withdrawals_increment_map(
            *chain_spec,
            block_timestamp,
            old(balance_increments)@,
            opt_withdrawals(withdrawals),
        ),
        final(balance_increments).total() == old(balance_increments).total()
            + withdrawals_total(*chain_spec, block_timestamp, opt_withdrawals(withdrawals)),
{
    if chain_spec.is_shanghai_active_at_timestamp(block_timestamp) {
        if let Some(ws) = withdrawals {
            let ghost m0 = balance_increments@;
            let ghost t0 = balance_increments.total();
            let ghost contribs = withdrawal_contributions(ws@);
            proof {
                lemma_withdrawal_contributions_nonneg(ws@);
                assert(opt_withdrawals(withdrawals) == ws@);
                assert forall|a: Address|
                    increment_of(fold_increments(m0, contribs), a) <= u128::MAX by {
                    assert(increment_of(
                        withdrawals_increment_map(
                            *chain_spec,
                            block_timestamp,
                            m0,
                            opt_withdrawals(withdrawals),
                        ),
                        a,
                    ) <= u128::MAX);
                }
            }
            let n = ws.len();
            let mut i: usize = 0;
            while i < n
                invariant
                    n == ws@.len(),
                    i <= n,
                    m0 == old(balance_increments)@,
                    t0 == old(balance_increments).total(),
                    contribs == withdrawal_contributions(ws@),
                    nonneg_amounts(contribs),
                    contribs.len() == n,
                    balance_increments.wf(),
                    balance_increments@ == fold_increments(m0, contribs.take(i as int)),
                    balance_increments.total() == t0 + total_sum(contribs.take(i as int)),
                    forall|a: Address|
                        increment_of(fold_increments(m0, contribs), a) <= u128::MAX,
                decreases n - i,
            {
                let w = ws[i];
                let amount = w.amount_wei();
                proof {
                    assert(contribs[i as int] == withdrawal_contribution(ws@[i as int]));
                    lemma_fold_take_succ(m0, contribs, i as int);
                    lemma_fold_increment_of(m0, contribs.take(i as int), w.address);
                    lemma_fold_increment_of(m0, contribs.take(i + 1 as int), w.address);
                    lemma_fold_increment_of(m0, contribs, w.address);
                    lemma_key_sum_take_le(contribs, i + 1 as int, w.address);
                }
                balance_increments.accumulate(w.address, amount);
                proof {
                    assert(balance_increments@ == fold_increments(
                        m0,
                        contribs.take(i + 1 as int),
                    ));
                }
                i = i + 1;
            }
            proof {
                assert(contribs.take(n as int) =~= contribs);
            }
        }
    }
}

/// Returns the map of identities to balance increments that the block's
/// withdrawals produce, if the withdrawal gate is active at the given
/// timestamp; an empty map otherwise.
///
/// Zero-valued withdrawals are skipped, not failed.
pub fn post_block_withdrawals_balance_increments(
    chain_spec: &ChainSpec,
    block_timestamp: u64,
    withdrawals: &[Withdrawal],
) -> (balance_increments: BalanceIncrements)
    requires
        forall|a: Address|
            increment_of(
                withdrawals_increment_map(
                    *chain_spec,
                    block_timestamp,
                    Map::<Address, int>::empty(),
                    withdrawals@,
                ),
                a,
            ) <= u128::MAX,
    ensures
        balance_increments.wf(),
        balance_increments@ == withdrawals_increment_map(
            *chain_spec,
            block_timestamp,
            Map::<Address, int>::empty(),
            withdrawals@,
        ),
        balance_increments.total() == withdrawals_total(
            *chain_spec,
            block_timestamp,
            withdrawals@,
        ),
{
    let mut balance_increments = BalanceIncrements::new();
    insert_post_block_withdrawals_balance_increments(
        chain_spec,
        block_timestamp,
        Some(withdrawals),
        &mut balance_increments,
    );
    balance_increments
}

} // verus!
