//! The execution environment of the system call: a plain model of the
//! block and transaction context, a state diff, and the interface to the
//! transaction executor and its backing database.
//!
//! The environment is plain data so that the snapshot/stage/execute/restore
//! envelope around the system call can be verified field for field. The
//! executor itself is an external collaborator behind the [`Database`]
//! trait: what it computes is its own business, but committing is observable
//! through the trait's committed log, and that is what the contracts here
//! speak about.

use vstd::prelude::*;

use crate::primitives::Address;
use crate::primitives::B256;
use crate::primitives::address_eq;
use crate::primitives::is_beacon_roots_contract;
use crate::primitives::is_system_caller;
use crate::primitives::beacon_roots_contract_address;
use crate::primitives::system_caller_address;

verus! {

/// Gas allowance of the protocol-internal system call.
pub const SYSTEM_CALL_GAS_LIMIT: u64 = 30_000_000;

/// The change execution recorded for one account.
#[derive(Clone, Copy, Debug, PartialEq, Eq)]
pub struct AccountChange {
    /// The account's balance after the transaction.
    pub balance: u128,
    /// The account's nonce after the transaction.
    pub nonce: u64,
}

/// The account-state changes produced by executing one transaction, read
/// as a map from identity to its change; a later entry for the same
/// identity supersedes an earlier one.
pub open spec fn diff_map_of(s: Seq<(Address, AccountChange)>) -> Map<Address, AccountChange>
    decreases s.len(),
{
    if s.len() == 0 {
        Map::empty()
    } else {
        diff_map_of(s.drop_last()).insert(s.last().0, s.last().1)
    }
}

/// An identity is in the diff exactly when some entry names it.
pub proof fn lemma_diff_map_contains(s: Seq<(Address, AccountChange)>, a: Address)
    ensures
        diff_map_of(s).contains_key(a) <==> exists|i: int| 0 <= i < s.len() && s[i].0 == a,
    decreases s.len(),
{
    if s.len() > 0 {
        lemma_diff_map_contains(s.drop_last(), a);
        if s.last().0 == a {
            assert(s[s.len() - 1].0 == a);
        } else {
            assert((exists|i: int| 0 <= i < s.len() && s[i].0 == a) <==> (exists|i: int|
                0 <= i < s.len() - 1 && s[i].0 == a)) by {
                if exists|i: int| 0 <= i < s.len() && s[i].0 == a {
                    let i = choose|i: int| 0 <= i < s.len() && s[i].0 == a;
                    assert(i != s.len() - 1);
                }
            }
            assert(forall|i: int| 0 <= i < s.len() - 1 ==> s.drop_last()[i] == s[i]);
        }
    }
}

/// The state diff of one executed transaction.
#[derive(Debug)]
pub struct StateDiff {
    entries: Vec<(Address, AccountChange)>,
}

impl View for StateDiff {
    type V = Map<Address, AccountChange>;

    closed spec fn view(&self) -> Map<Address, AccountChange> {
        diff_map_of(self.entries@)
    }
}

impl StateDiff {
    /// Creates an empty diff.
    pub fn new() -> (r: Self)
        ensures
            r@ == Map::<Address, AccountChange>::empty(),
    {
        StateDiff { entries: Vec::new() }
    }

    /// Records the change for one account, superseding an earlier entry.
    pub fn insert(&mut self, a: Address, change: AccountChange)
        ensures
            final(self)@ == old(self)@.insert(a, change),
    {
        self.entries.push((a, change));
        proof {
            assert(self.entries@.drop_last() =~= old(self).entries@);
        }
    }

    /// True when the diff holds a change for the identity.
    pub fn contains(&self, a: &Address) -> (r: bool)
        ensures
            r == self@.contains_key(*a),
    {
        let n = self.entries.len();
        let mut i: usize = 0;
        while i < n
            invariant
                n == self.entries@.len(),
                i <= n,
                forall|k: int| 0 <= k < i ==> self.entries@[k].0 != *a,
            decreases n - i,
        {
            if address_eq(&self.entries[i].0, a) {
                proof {
                    lemma_diff_map_contains(self.entries@, *a);
                }
                return true;
            }
            i = i + 1;
        }
        proof {
            lemma_diff_map_contains(self.entries@, *a);
        }
        false
    }

    /// Drops every change recorded for the identity.
    pub fn remove(&mut self, a: &Address)
        ensures
            final(self)@ == old(self)@.remove(*a),
    {
        let ghost s = self.entries@;
        let n = self.entries.len();
        let mut kept: Vec<(Address, AccountChange)> = Vec::new();
        let mut i: usize = 0;
        while i < n
            invariant
                n == s.len(),
                i <= n,
                self.entries@ == s,
                diff_map_of(kept@) == diff_map_of(s.take(i as int)).remove(*a),
            decreases n - i,
        {
            let entry = self.entries[i];
            proof {
                assert(s.take(i + 1 as int).drop_last() =~= s.take(i as int));
                assert(s.take(i + 1 as int).last() == s[i as int]);
            }
            if !address_eq(&entry.0, a) {
                let ghost kept_before = kept@;
                kept.push(entry);
                proof {
                    assert(kept@.drop_last() =~= kept_before);
                    assert(diff_map_of(kept@) =~= diff_map_of(s.take(i + 1 as int)).remove(*a));
                }
            } else {
                proof {
                    assert(diff_map_of(kept@) =~= diff_map_of(s.take(i + 1 as int)).remove(*a));
                }
            }
            i = i + 1;
        }
        proof {
            assert(s.take(n as int) =~= s);
        }
        self.entries = kept;
    }

    /// A copy of the diff with the same contents.
    pub fn duplicate(&self) -> (r: Self)
        ensures
            r@ == self@,
    {
        let n = self.entries.len();
        let mut entries: Vec<(Address, AccountChange)> = Vec::new();
        let mut i: usize = 0;
        while i < n
            invariant
                n == self.entries@.len(),
                i <= n,
                entries@ == self.entries@.take(i as int),
            decreases n - i,
        {
            entries.push(self.entries[i]);
            proof {
                assert(entries@ =~= self.entries@.take(i + 1 as int));
            }
            i = i + 1;
        }
        proof {
            assert(entries@ =~= self.entries@);
        }
        StateDiff { entries }
    }
}

/// The block-level part of the environment.
#[derive(Clone, Copy, Debug, PartialEq, Eq)]
pub struct BlockEnv {
    /// Height of the block being processed.
    pub number: u64,
    /// Timestamp of the block being processed.
    pub timestamp: u64,
    /// Gas limit of the block.
    pub gas_limit: u64,
    /// Base fee per gas unit.
    pub basefee: u128,
    /// The identity credited with the block reward.
    pub coinbase: Address,
}

/// The transaction-level part of the environment.
#[derive(Debug, PartialEq, Eq)]
pub struct TxEnv {
    /// The sender.
    pub caller: Address,
    /// The recipient; `None` stages a contract creation.
    pub transact_to: Option<Address>,
    /// The calldata.
    pub data: Vec<u8>,
    /// Gas allowance of the transaction.
    pub gas_limit: u64,
    /// Value carried by the transaction.
    pub value: u128,
}

/// Mathematical image of a transaction environment.
pub struct TxEnvView {
    pub caller: Address,
    pub transact_to: Option<Address>,
    pub data: Seq<u8>,
    pub gas_limit: u64,
    pub value: u128,
}

impl View for TxEnv {
    type V = TxEnvView;

    open spec fn view(&self) -> TxEnvView {
        TxEnvView {
            caller: self.caller,
            transact_to: self.transact_to,
            data: self.data@,
            gas_limit: self.gas_limit,
            value: self.value,
        }
    }
}

/// The full execution environment observed by a transaction.
#[derive(Debug, PartialEq, Eq)]
pub struct EvmEnv {
    pub block: BlockEnv,
    pub tx: TxEnv,
}

/// Mathematical image of the full environment.
pub struct EvmEnvView {
    pub block: BlockEnv,
    pub tx: TxEnvView,
}

impl View for EvmEnv {
    type V = EvmEnvView;

    open spec fn view(&self) -> EvmEnvView {
        EvmEnvView { block: self.block, tx: self.tx@ }
    }
}

impl EvmEnv {
    /// A copy of the environment, field for field: the snapshot that the
    /// system call restores on every exit path.
    pub fn duplicate(&self) -> (r: Self)
        ensures
            r@ == self@,
    {
        let n = self.tx.data.len();
        let mut data: Vec<u8> = Vec::new();
        let mut i: usize = 0;
        while i < n
            invariant
                n == self.tx.data@.len(),
                i <= n,
                data@ == self.tx.data@.take(i as int),
            decreases n - i,
        {
            data.push(self.tx.data[i]);
            proof {
                assert(data@ =~= self.tx.data@.take(i + 1 as int));
            }
            i = i + 1;
        }
        proof {
            assert(data@ =~= self.tx.data@);
        }
        EvmEnv {
            block: self.block,
            tx: TxEnv {
                caller: self.tx.caller,
                transact_to: self.tx.transact_to,
                data,
                gas_limit: self.tx.gas_limit,
                value: self.tx.value,
            },
        }
    }
}

/// Stages the protocol-internal beacon-root system transaction: the fixed
/// system caller sends the parent beacon root as calldata to the designated
/// beacon-roots contract, with no value and a fixed gas allowance. The
/// block context is left untouched.
pub fn fill_tx_env_with_beacon_root_contract_call(
    env: &mut EvmEnv,
    parent_beacon_block_root: &B256,
)
    ensures
        final(env).block == old(env).block,
        is_system_caller(final(env)@.tx.caller),
        final(env)@.tx.transact_to matches Some(to) && is_beacon_roots_contract(to),
        final(env)@.tx.data == parent_beacon_block_root.bytes@,
        final(env)@.tx.gas_limit == SYSTEM_CALL_GAS_LIMIT,
        final(env)@.tx.value == 0,
{
    let mut data: Vec<u8> = Vec::new();
    let mut i: usize = 0;
    while i < 32
        invariant
            i <= 32,
            data@ == parent_beacon_block_root.bytes@.take(i as int),
        decreases 32 - i,
    {
        data.push(parent_beacon_block_root.bytes[i]);
        proof {
            assert(data@ =~= parent_beacon_block_root.bytes@.take(i + 1 as int));
        }
        i = i + 1;
    }
    proof {
        assert(data@ =~= parent_beacon_block_root.bytes@);
    }
    env.tx = TxEnv {
        caller: system_caller_address(),
        transact_to: Some(beacon_roots_contract_address()),
        data,
        gas_limit: SYSTEM_CALL_GAS_LIMIT,
        value: 0,
    };
}

/// The interface to the transaction executor and its backing state
/// database, implemented by the calling block-processing pipeline. Only
/// committing changes durable state; what `transact` computes is the
/// implementation's own, so callers may rely on nothing about a returned
/// diff beyond what they check themselves.
pub trait Database: Sized {
    /// The diffs committed to durable state so far, in order.
    spec fn committed(&self) -> Seq<Map<Address, AccountChange>>;

    /// Runs the transaction staged in `env` against current state and
    /// returns the resulting state diff, or a failure message. Nothing is
    /// committed by this call.
    fn transact(&mut self, env: &EvmEnv) -> (r: Result<StateDiff, String>)
        ensures
            final(self).committed() == old(self).committed(),
    ;

    /// Commits one state diff to durable state.
    fn commit(&mut self, diff: StateDiff)
        ensures
            final(self).committed() == old(self).committed().push(diff@),
    ;
}

/// The execution environment together with its backing database: what the
/// block-processing pipeline hands over, exclusively, for the duration of
/// the system call.
pub struct Evm<DB> {
    pub env: EvmEnv,
    pub db: DB,
}

/// A database whose execution outcome is chosen up front: it answers the
/// scripted diff (or the scripted failure) and records every commit. It
/// gives the executor interface a verified in-crate implementation, so the
/// transactional envelope around the system call can be exercised against
/// every outcome.
pub struct ScriptedDb {
    /// What `transact` answers: a diff, or `None` for an execution failure.
    pub outcome: Option<StateDiff>,
    /// Every diff committed so far, in order.
    pub commits: Vec<StateDiff>,
}

impl Database for ScriptedDb {
    open spec fn committed(&self) -> Seq<Map<Address, AccountChange>> {
        self.commits@.map_values(|d: StateDiff| d@)
    }

    fn transact(&mut self, env: &EvmEnv) -> (r: Result<StateDiff, String>) {
        match &self.outcome {
            Some(diff) => Ok(diff.duplicate()),
            None => Err("scripted execution failure".to_owned()),
        }
    }

    fn commit(&mut self, diff: StateDiff) {
        let ghost prev = self.commits@;
        let ghost dv = diff@;
        self.commits.push(diff);
        proof {
            assert(self.commits@.drop_last() =~= prev);
            assert(self.committed() =~= prev.map_values(|d: StateDiff| d@).push(dv));
        }
    }
}

} // verus!
