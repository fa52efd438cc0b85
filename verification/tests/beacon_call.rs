use state_change::beacon::BlockExecutionError;
use state_change::beacon::apply_beacon_root_contract_call;
use state_change::evm::AccountChange;
use state_change::evm::BlockEnv;
use state_change::evm::Evm;
use state_change::evm::EvmEnv;
use state_change::evm::SYSTEM_CALL_GAS_LIMIT;
use state_change::evm::ScriptedDb;
use state_change::evm::StateDiff;
use state_change::evm::TxEnv;
use state_change::primitives::Address;
use state_change::primitives::B256;
use state_change::primitives::ChainSpec;
use state_change::primitives::system_caller_address;
use state_change::primitives::zero_root;

fn addr(tag: u8) -> Address {
    Address { bytes: [tag; 20] }
}

fn cancun_at(t: u64) -> ChainSpec {
    ChainSpec { shanghai_time: Some(0), cancun_time: Some(t) }
}

fn sample_env(coinbase: Address) -> EvmEnv {
    EvmEnv {
        block: BlockEnv {
            number: 17,
            timestamp: 1000,
            gas_limit: 30_000_000,
            basefee: 7,
            coinbase,
        },
        tx: TxEnv {
            caller: addr(9),
            transact_to: Some(addr(8)),
            data: vec![1, 2, 3],
            gas_limit: 21_000,
            value: 5,
        },
    }
}

fn change(balance: u128) -> AccountChange {
    AccountChange { balance, nonce: 1 }
}

#[test]
fn inactive_gate_is_a_noop() {
    let coinbase = addr(3);
    let mut diff = StateDiff::new();
    diff.insert(addr(4), change(100));
    let mut evm = Evm {
        env: sample_env(coinbase),
        db: ScriptedDb { outcome: Some(diff), commits: Vec::new() },
    };
    let before = evm.env.duplicate();
    let cs = ChainSpec { shanghai_time: Some(0), cancun_time: None };
    let r = apply_beacon_root_contract_call(&cs, 1000, 17, Some(zero_root()), &mut evm);
    assert!(r.is_ok());
    assert_eq!(evm.db.commits.len(), 0);
    assert_eq!(evm.env, before);
}

#[test]
fn genesis_zero_root_succeeds_without_commit() {
    let mut evm = Evm {
        env: sample_env(addr(3)),
        db: ScriptedDb { outcome: Some(StateDiff::new()), commits: Vec::new() },
    };
    let before = evm.env.duplicate();
    let r = apply_beacon_root_contract_call(&cancun_at(0), 1000, 0, Some(zero_root()), &mut evm);
    assert!(r.is_ok());
    assert_eq!(evm.db.commits.len(), 0);
    assert_eq!(evm.env, before);
}

#[test]
fn genesis_nonzero_root_is_rejected() {
    let mut evm = Evm {
        env: sample_env(addr(3)),
        db: ScriptedDb { outcome: Some(StateDiff::new()), commits: Vec::new() },
    };
    let nonzero = B256 { bytes: [1u8; 32] };
    let r = apply_beacon_root_contract_call(&cancun_at(0), 1000, 0, Some(nonzero), &mut evm);
    assert!(matches!(r, Err(BlockExecutionError::GenesisInvariantViolation)));
    assert_eq!(evm.db.commits.len(), 0);
}

#[test]
fn genesis_absent_root_is_rejected() {
    let mut evm = Evm {
        env: sample_env(addr(3)),
        db: ScriptedDb { outcome: Some(StateDiff::new()), commits: Vec::new() },
    };
    let r = apply_beacon_root_contract_call(&cancun_at(0), 1000, 0, None, &mut evm);
    assert!(matches!(r, Err(BlockExecutionError::GenesisInvariantViolation)));
    assert_eq!(evm.db.commits.len(), 0);
}

#[test]
fn missing_root_past_genesis_is_rejected() {
    let mut evm = Evm {
        env: sample_env(addr(3)),
        db: ScriptedDb { outcome: Some(StateDiff::new()), commits: Vec::new() },
    };
    let before = evm.env.duplicate();
    let r = apply_beacon_root_contract_call(&cancun_at(0), 1000, 17, None, &mut evm);
    assert!(matches!(r, Err(BlockExecutionError::MissingParentBeaconRoot)));
    assert_eq!(evm.db.commits.len(), 0);
    assert_eq!(evm.env, before);
}

#[test]
fn committed_diff_filters_system_caller_and_coinbase() {
    let coinbase = addr(3);
    let other = addr(4);
    let mut diff = StateDiff::new();
    diff.insert(system_caller_address(), change(50));
    diff.insert(coinbase, change(60));
    diff.insert(other, change(70));
    let mut evm = Evm {
        env: sample_env(coinbase),
        db: ScriptedDb { outcome: Some(diff), commits: Vec::new() },
    };
    let before = evm.env.duplicate();
    let root = B256 { bytes: [5u8; 32] };
    let r = apply_beacon_root_contract_call(&cancun_at(0), 1000, 17, Some(root), &mut evm);
    assert!(r.is_ok());
    assert_eq!(evm.db.commits.len(), 1);
    let committed = &evm.db.commits[0];
    assert!(committed.contains(&other));
    assert!(!committed.contains(&system_caller_address()));
    assert!(!committed.contains(&coinbase));
    // The environment is restored on success too.
    assert_eq!(evm.env, before);
}

#[test]
fn execution_failure_restores_env_and_commits_nothing() {
    let coinbase = addr(3);
    let mut evm = Evm {
        env: sample_env(coinbase),
        db: ScriptedDb { outcome: None, commits: Vec::new() },
    };
    let before = evm.env.duplicate();
    let root = B256 { bytes: [5u8; 32] };
    let r = apply_beacon_root_contract_call(&cancun_at(0), 1000, 17, Some(root), &mut evm);
    match r {
        Err(BlockExecutionError::SystemCallExecutionFailure { block_number, message }) => {
            assert_eq!(block_number, 17);
            assert!(!message.is_empty());
        }
        other => panic!("expected an execution failure, got {:?}", other),
    }
    assert_eq!(evm.db.commits.len(), 0);
    assert_eq!(evm.env, before);
}

#[test]
fn staged_transaction_uses_system_caller() {
    // Observable through the scripted database: the environment the
    // executor saw was staged, the caller's environment is restored after.
    let mut evm = Evm {
        env: sample_env(addr(3)),
        db: ScriptedDb { outcome: Some(StateDiff::new()), commits: Vec::new() },
    };
    let r = apply_beacon_root_contract_call(
        &cancun_at(0),
        1000,
        17,
        Some(B256 { bytes: [5u8; 32] }),
        &mut evm,
    );
    assert!(r.is_ok());
    // After restoration the staged values are gone again.
    assert_eq!(evm.env.tx.caller, addr(9));
    assert_eq!(evm.env.tx.gas_limit, 21_000);
    assert_ne!(evm.env.tx.gas_limit, SYSTEM_CALL_GAS_LIMIT);
}

#[test]
fn activation_gates_are_timestamp_bounded() {
    let cs = ChainSpec { shanghai_time: Some(100), cancun_time: Some(200) };
    assert!(!cs.is_shanghai_active_at_timestamp(99));
    assert!(cs.is_shanghai_active_at_timestamp(100));
    assert!(cs.is_shanghai_active_at_timestamp(101));
    assert!(!cs.is_cancun_active_at_timestamp(199));
    assert!(cs.is_cancun_active_at_timestamp(200));
    assert!(cs.is_cancun_active_at_timestamp(u64::MAX));
    let never = ChainSpec { shanghai_time: None, cancun_time: None };
    assert!(!never.is_shanghai_active_at_timestamp(u64::MAX));
    assert!(!never.is_cancun_active_at_timestamp(u64::MAX));
}
