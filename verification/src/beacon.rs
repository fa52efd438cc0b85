//! The mandatory pre-block system call that publishes the parent beacon
//! root, gated by the beacon-root-enabling hardfork.
//!
//! The call is wrapped in an all-or-nothing envelope: the environment is
//! snapshotted, staged, and restored on every exit path, so the caller's
//! ambient execution context never observes that the call happened — only
//! the committed, filtered state diff remains.

use vstd::prelude::*;

use crate::evm::Database;
use crate::evm::Evm;
use crate::evm::fill_tx_env_with_beacon_root_contract_call;
use crate::primitives::Address;
use crate::primitives::B256;
use crate::primitives::ChainSpec;
use crate::primitives::is_system_caller;
use crate::primitives::is_zero_root;
use crate::primitives::root_is_zero;
use crate::primitives::system_caller_address;

verus! {

/// Why a block is rejected. Every variant is fatal to block validity: the
/// caller must reject the whole block, never retry or partially apply it.
#[derive(Debug)]
pub enum BlockExecutionError {
    /// A parent beacon root other than the all-zero root was supplied at
    /// the genesis block.
    GenesisInvariantViolation,
    /// The parent beacon root was absent at a non-genesis block although
    /// the beacon-root gate is active.
    MissingParentBeaconRoot,
    /// The execution of the system transaction itself failed; carries the
    /// block height and the underlying failure message for diagnostics.
    SystemCallExecutionFailure { block_number: u64, message: String },
}

/// The genesis invariant: at block zero the parent beacon root must be
/// present and all-zero.
pub open spec fn genesis_root_ok(parent: Option<B256>) -> bool {
    parent matches Some(h) && is_zero_root(h)
}

/// True when the result is the execution-failure error.
pub open spec fn is_system_call_failure(r: Result<(), BlockExecutionError>) -> bool {
    r matches Err(BlockExecutionError::SystemCallExecutionFailure { .. })
}

/// Applies the pre-block call to the beacon-roots contract.
///
/// While the enabling hardfork is inactive this is a no-op returning success. At genesis the
/// parent beacon root is only validated; no system transaction runs. At any
/// later block the staged system transaction is executed; on success its
/// state diff — with the entries of the fixed system caller and of the
/// block's coinbase filtered out — is committed, and on failure nothing is.
/// On every path the execution environment returns to the caller exactly as
/// it was handed over.
pub fn apply_beacon_root_contract_call<DB: Database>(
    chain_spec: &ChainSpec,
    block_timestamp: u64,
    block_number: u64,
    block_parent_beacon_block_root: Option<B256>,
    evm: &mut Evm<DB>,
) -> (r: Result<(), BlockExecutionError>)
    ensures
        final(evm).env@ == old(evm).env@,
        !chain_spec.spec_is_cancun_active_at_timestamp(block_timestamp) ==> (r is Ok
            && *final(evm) == *old(evm)),
        (chain_spec.spec_is_cancun_active_at_timestamp(block_timestamp) && block_number == 0)
            ==> (*final(evm) == *old(evm) && (r is Ok <==> genesis_root_ok(
            block_parent_beacon_block_root,
        ))),
        r matches Err(BlockExecutionError::GenesisInvariantViolation)
            <==> (chain_spec.spec_is_cancun_active_at_timestamp(block_timestamp) && block_number
            == 0 && !genesis_root_ok(block_parent_beacon_block_root)),
        r matches Err(BlockExecutionError::MissingParentBeaconRoot)
            <==> (chain_spec.spec_is_cancun_active_at_timestamp(block_timestamp) && block_number
            > 0 && block_parent_beacon_block_root is None),
        is_system_call_failure(r) ==> (chain_spec.spec_is_cancun_active_at_timestamp(
            block_timestamp,
        ) && block_number > 0 && block_parent_beacon_block_root is Some),
        r matches Err(BlockExecutionError::SystemCallExecutionFailure {
            block_number: height,
            ..
        }) ==> height == block_number,
        r is Err ==> (final(evm).db.committed() == old(evm).db.committed() && is_system_call_failure(
            r,
        ) == !(r matches Err(BlockExecutionError::GenesisInvariantViolation) || r matches Err(
            BlockExecutionError::MissingParentBeaconRoot,
        ))),
        (chain_spec.spec_is_cancun_active_at_timestamp(block_timestamp) && block_number > 0 && r
            is Ok) ==> {
            &&& block_parent_beacon_block_root is Some
            &&& final(evm).db.committed().len() == old(evm).db.committed().len() + 1
            &&& final(evm).db.committed().drop_last() == old(evm).db.committed()
            &&& forall|a: Address|
                is_system_caller(a) ==> !final(evm).db.committed().last().contains_key(a)
            &&& !final(evm).db.committed().last().contains_key(old(evm).env.block.coinbase)
        },
{
    if !chain_spec.is_cancun_active_at_timestamp(block_timestamp) {
        return Ok(());
    }
    if block_number == 0 {
        // At genesis no system transaction may occur; the parent beacon
        // root must be present and zero.
        match &block_parent_beacon_block_root {
            Some(root) => {
                if root_is_zero(root) {
                    Ok(())
                } else {
                    Err(BlockExecutionError::GenesisInvariantViolation)
                }
            },
            None => Err(BlockExecutionError::GenesisInvariantViolation),
        }
    } else {
        let root = match block_parent_beacon_block_root {
            Some(root) => root,
            None => {
                return Err(BlockExecutionError::MissingParentBeaconRoot);
            },
        };
        // Snapshot the environment; every exit below restores it.
        let previous_env = evm.env.duplicate();
        fill_tx_env_with_beacon_root_contract_call(&mut evm.env, &root);
        let result = evm.db.transact(&evm.env);
        match result {
            Err(message) => {
                evm.env = previous_env;
                Err(BlockExecutionError::SystemCallExecutionFailure { block_number, message })
            },
            Ok(mut state) => {
                // The system caller and the coinbase are execution
                // artifacts of the synthetic transaction; they must not
                // leak into consensus state.
                let system = system_caller_address();
                state.remove(&system);
                let coinbase = evm.env.block.coinbase;
                state.remove(&coinbase);
                proof {
                    assert forall|a: Address| is_system_caller(a) implies a == system by {
                        assert(a.bytes =~= system.bytes);
                    }
                }
                evm.db.commit(state);
                evm.env = previous_env;
                proof {
                    assert(evm.db.committed().drop_last() =~= old(evm).db.committed());
                }
                Ok(())
            },
        }
    }
}

} // verus!
