//! The routing record, its invariant, and the events and errors of the five
//! operations.

use vstd::prelude::*;

verus! {

/// The most recipients a routing record may hold.
pub const MAX_RECIPIENTS: usize = 8;

/// A split is expressed in basis points; a valid configuration sums to
/// exactly this value.
pub const BPS_DENOMINATOR: u32 = 10_000;

/// A 32-byte account address, held as two 128-bit halves so that executable
/// equality is the structural equality the contracts use. Addresses are
/// opaque to the routing logic: only equality is ever asked of them.
#[derive(Clone, Copy, PartialEq, Eq, Structural, Hash, Debug)]
pub struct Address {
    pub hi: u128,
    pub lo: u128,
}

/// The distinct failures of the five operations. Validation failures,
/// the authorization failure and the empty-custody failure are never
/// coerced into one another.
#[derive(Clone, Copy, PartialEq, Eq, Structural, Debug)]
pub enum FeeRouterError {
    /// Split lengths differ, the recipient list is empty, or the basis
    /// points do not sum to exactly `BPS_DENOMINATOR`.
    InvalidSplit,
    /// The asset identifier does not match the one the custody address is
    /// derived from.
    MintMismatch,
    /// More than `MAX_RECIPIENTS` recipients.
    TooManyRecipients,
    /// A deposit of zero.
    InvalidAmount,
    /// A distribute against a custody balance of zero.
    EmptyVault,
    /// A proof kind outside `{0, 1, 2}`.
    InvalidProofKind,
    /// The caller is not the record's stored authority.
    Unauthorized,
}

/// One routing record: the persistent state for a single asset identifier.
#[derive(Debug)]
pub struct Router {
    /// The only identity permitted to change the split or record a proof.
    pub authority: Address,
    /// The asset identifier this record routes; immutable after creation.
    pub mint: Address,
    /// Destination addresses, in order; pairs with `bps` by index.
    pub recipients: Vec<Address>,
    /// Basis points per recipient; a valid record sums to `BPS_DENOMINATOR`.
    pub bps: Vec<u16>,
    /// The derivation salt that, with `mint`, yields the custody address.
    pub vault_bump: u8,
    /// The most recent mint attestation signature, overwritten wholesale.
    pub last_mint: [u8; 64],
    /// The most recent claim attestation signature, overwritten wholesale.
    pub last_claim: [u8; 64],
    /// The most recent distribute attestation signature, overwritten wholesale.
    pub last_distribute: [u8; 64],
}

/// The basis points of a split, summed.
pub open spec fn sum_bps(s: Seq<u16>) -> int
    decreases s.len(),
{
    if s.len() == 0 {
        0
    } else {
        sum_bps(s.drop_last()) + s.last()
    }
}

/// A split configuration the record accepts: paired lengths, between one and
/// `MAX_RECIPIENTS` recipients, basis points summing to exactly
/// `BPS_DENOMINATOR`.
pub open spec fn valid_split(recipients: Seq<Address>, bps: Seq<u16>) -> bool {
    &&& recipients.len() == bps.len()
    &&& recipients.len() >= 1
    &&& recipients.len() <= MAX_RECIPIENTS
    &&& sum_bps(bps) == BPS_DENOMINATOR
}

/// The error an invalid split reports, in the order the checks run: length
/// mismatch, empty list, oversized list, then the sum.
pub open spec fn split_error(recipients: Seq<Address>, bps: Seq<u16>) -> FeeRouterError {
    if recipients.len() != bps.len() {
        FeeRouterError::InvalidSplit
    } else if recipients.len() == 0 {
        FeeRouterError::InvalidSplit
    } else if recipients.len() > MAX_RECIPIENTS {
        FeeRouterError::TooManyRecipients
    } else {
        FeeRouterError::InvalidSplit
    }
}

/// A split whose basis points do not sum to exactly `BPS_DENOMINATOR` —
/// empty, all zero, short of the total or past it — is never a valid
/// configuration, whatever its recipients: initialization and update both
/// refuse it, and by their contracts leave any prior record unchanged.
pub proof fn lemma_bad_sum_never_valid(recipients: Seq<Address>, bps: Seq<u16>)
    requires
        sum_bps(bps) != BPS_DENOMINATOR,
    ensures
        !valid_split(recipients, bps),
{
}

/// The error initialization reports, in the order its checks run: the asset
/// identifier against the one the custody address derives from, then the
/// split checks.
pub open spec fn initialize_error(
    mint: Address,
    derivation_mint: Address,
    recipients: Seq<Address>,
    bps: Seq<u16>,
) -> FeeRouterError {
    if mint != derivation_mint {
        FeeRouterError::MintMismatch
    } else {
        split_error(recipients, bps)
    }
}

/// The error an update reports: authorization is checked before any
/// validation, then the split checks run as at initialization.
pub open spec fn update_error(
    authority: Address,
    caller: Address,
    recipients: Seq<Address>,
    bps: Seq<u16>,
) -> FeeRouterError {
    if caller != authority {
        FeeRouterError::Unauthorized
    } else {
        split_error(recipients, bps)
    }
}

impl Router {
    /// The record invariant: the stored split is valid. Initialization
    /// establishes it and every mutation preserves it.
    pub open spec fn wf(self) -> bool {
        valid_split(self.recipients@, self.bps@)
    }

    /// The fixed storage footprint of one record, in bytes: an 8-byte
    /// discriminator tag, two addresses, the two length-prefixed arrays at
    /// their `MAX_RECIPIENTS` bound, the bump, and the three 64-byte proof
    /// buffers.
    pub fn space() -> (n: usize)
        ensures
            n == 545,
    {
        8 + 32 + 32 + 4 + (32 * MAX_RECIPIENTS) + 4 + (2 * MAX_RECIPIENTS) + 1 + (64 * 3)
    }
}

/// Notification that a record was created.
#[derive(Clone, Copy, PartialEq, Eq, Structural, Debug)]
pub struct RouterInitialized {
    pub mint: Address,
    pub authority: Address,
}

/// Notification that a record's split was replaced.
#[derive(Clone, Copy, PartialEq, Eq, Structural, Debug)]
pub struct RouterUpdated {
    pub mint: Address,
    pub authority: Address,
}

/// Notification that value entered custody.
#[derive(Clone, Copy, PartialEq, Eq, Structural, Debug)]
pub struct Deposited {
    pub mint: Address,
    pub amount: u64,
}

/// Notification that a distribution ran; `total` is the pre-distribution
/// custody balance, not the sum actually moved.
#[derive(Clone, Copy, PartialEq, Eq, Structural, Debug)]
pub struct Distributed {
    pub mint: Address,
    pub total: u64,
}

/// Notification that one proof buffer was overwritten.
#[derive(Clone, Copy, PartialEq, Eq, Structural, Debug)]
pub struct ProofUpdated {
    pub mint: Address,
    pub kind: u8,
}

} // verus!
