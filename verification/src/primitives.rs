//! Plain data carried through the consensus rules: account identities,
//! 32-byte roots, chain configuration gates, ommer headers and withdrawals.

use vstd::prelude::*;

verus! {

broadcast use vstd::array::group_array_axioms;

/// Conversion factor from a withdrawal's unit (one billionth of the native
/// unit) to the native smallest unit.
pub const GWEI_TO_WEI: u128 = 1_000_000_000;

/// A fixed-width account identity (20 bytes), used as the key of every
/// balance-increment map.
#[derive(Clone, Copy, Debug, PartialEq, Eq)]
pub struct Address {
    pub bytes: [u8; 20],
}

/// A 32-byte root delivered by the consensus layer.
#[derive(Clone, Copy, Debug, PartialEq, Eq)]
pub struct B256 {
    pub bytes: [u8; 32],
}

/// Byte-wise identity comparison. Verified code compares identities through
/// this function; the derived `PartialEq` exists for unverified callers only.
pub fn address_eq(a: &Address, b: &Address) -> (r: bool)
    ensures
        r == (*a == *b),
{
    let mut i: usize = 0;
    while i < 20
        invariant
            i <= 20,
            forall|j: int| 0 <= j < i ==> a.bytes@[j] == b.bytes@[j],
        decreases 20 - i,
    {
        if a.bytes[i] != b.bytes[i] {
            assert(!(a.bytes =~= b.bytes));
            return false;
        }
        i = i + 1;
    }
    assert(a.bytes =~= b.bytes);
    true
}

/// True when every byte of the root is zero.
pub open spec fn is_zero_root(h: B256) -> bool {
    forall|i: int| 0 <= i < 32 ==> h.bytes@[i] == 0u8
}

/// Checks whether a root is the all-zero root.
pub fn root_is_zero(h: &B256) -> (r: bool)
    ensures
        r == is_zero_root(*h),
{
    let mut i: usize = 0;
    while i < 32
        invariant
            i <= 32,
            forall|j: int| 0 <= j < i ==> h.bytes@[j] == 0u8,
        decreases 32 - i,
    {
        if h.bytes[i] != 0 {
            return false;
        }
        i = i + 1;
    }
    true
}

/// Returns the all-zero root.
pub fn zero_root() -> (h: B256)
    ensures
        is_zero_root(h),
{
    B256 { bytes: [0u8; 32] }
}

/// Byte image of the fixed, chain-wide identity that signs protocol-internal
/// system transactions: `0xff` nineteen times, then `0xfe`.
pub open spec fn system_caller_bytes() -> Seq<u8> {
    Seq::new(20, |i: int| if i == 19 { 0xfeu8 } else { 0xffu8 })
}

/// True of exactly one identity: the system caller.
pub open spec fn is_system_caller(a: Address) -> bool {
    a.bytes@ == system_caller_bytes()
}

/// Builds the system-caller identity.
pub fn system_caller_address() -> (a: Address)
    ensures
        is_system_caller(a),
{
    let mut bytes: [u8; 20] = [0xffu8; 20];
    bytes[19] = 0xfeu8;
    assert(bytes@ =~= system_caller_bytes());
    Address { bytes }
}

/// Byte image of the designated beacon-roots contract,
/// `0x000f3df6d732807ef1319fb7b8bb8522d0beac02`: the execution-layer
/// contract that stores each block's parent beacon root.
pub open spec fn beacon_roots_bytes() -> Seq<u8> {
    seq![
        0x00u8,
        0x0fu8,
        0x3du8,
        0xf6u8,
        0xd7u8,
        0x32u8,
        0x80u8,
        0x7eu8,
        0xf1u8,
        0x31u8,
        0x9fu8,
        0xb7u8,
        0xb8u8,
        0xbbu8,
        0x85u8,
        0x22u8,
        0xd0u8,
        0xbeu8,
        0xacu8,
        0x02u8,
    ]
}

/// True of exactly one identity: the beacon-roots contract.
pub open spec fn is_beacon_roots_contract(a: Address) -> bool {
    a.bytes@ == beacon_roots_bytes()
}

/// Builds the beacon-roots contract identity.
pub fn beacon_roots_contract_address() -> (a: Address)
    ensures
        is_beacon_roots_contract(a),
{
    let bytes: [u8; 20] = [
        0x00u8, 0x0fu8, 0x3du8, 0xf6u8, 0xd7u8, 0x32u8, 0x80u8, 0x7eu8, 0xf1u8, 0x31u8, 0x9fu8,
        0xb7u8, 0xb8u8, 0xbbu8, 0x85u8, 0x22u8, 0xd0u8, 0xbeu8, 0xacu8, 0x02u8,
    ];
    assert(bytes@ =~= beacon_roots_bytes());
    Address { bytes }
}

/// Chain configuration, reduced to the two hardfork-activation gates this
/// crate reads: the timestamp at which validator withdrawals become a
/// consensus feature, and the later timestamp at which the beacon-root
/// system call becomes mandatory. `None` means the fork is never scheduled.
#[derive(Clone, Copy, Debug)]
pub struct ChainSpec {
    pub shanghai_time: Option<u64>,
    pub cancun_time: Option<u64>,
}

impl ChainSpec {
    /// The withdrawal-enabling gate, as a pure function of the timestamp.
    pub open spec fn spec_is_shanghai_active_at_timestamp(self, timestamp: u64) -> bool {
        match self.shanghai_time {
            Some(t) => timestamp >= t,
            None => false,
        }
    }

    /// The beacon-root-enabling gate, as a pure function of the timestamp.
    pub open spec fn spec_is_cancun_active_at_timestamp(self, timestamp: u64) -> bool {
        match self.cancun_time {
            Some(t) => timestamp >= t,
            None => false,
        }
    }

    pub fn is_shanghai_active_at_timestamp(&self, timestamp: u64) -> (r: bool)
        ensures
            r == self.spec_is_shanghai_active_at_timestamp(timestamp),
    {
        match self.shanghai_time {
            Some(t) => timestamp >= t,
            None => false,
        }
    }

    pub fn is_cancun_active_at_timestamp(&self, timestamp: u64) -> (r: bool)
        ensures
            r == self.spec_is_cancun_active_at_timestamp(timestamp),
    {
        match self.cancun_time {
            Some(t) => timestamp >= t,
            None => false,
        }
    }
}

/// The part of an ommer header that reward computation reads.
#[derive(Clone, Copy, Debug)]
pub struct Header {
    /// Height of the ommer block.
    pub number: u64,
    /// Identity credited with the ommer reward.
    pub beneficiary: Address,
}

/// A validator withdrawal record. The amount is expressed in one billionth
/// of the native unit.
#[derive(Clone, Copy, Debug)]
pub struct Withdrawal {
    /// Destination identity.
    pub address: Address,
    /// Withdrawn amount, in the smaller unit.
    pub amount: u64,
}

impl Withdrawal {
    /// The amount converted to the native smallest unit.
    pub open spec fn spec_amount_wei(self) -> int {
        (self.amount as int) * (GWEI_TO_WEI as int)
    }

    /// Converts the amount to the native smallest unit. The product always
    /// fits: the largest 64-bit amount times the unit factor stays far
    /// below the 128-bit bound.
    pub fn amount_wei(&self) -> (r: u128)
        ensures
            r == self.spec_amount_wei(),
            r as int == self.spec_amount_wei(),
    {
        proof {
            vstd::arithmetic::mul::lemma_mul_inequality(
                self.amount as int,
                u64::MAX as int,
                GWEI_TO_WEI as int,
            );
        }
        (self.amount as u128) * GWEI_TO_WEI
    }
}

} // verus!
