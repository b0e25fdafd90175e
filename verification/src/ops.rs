//! The five operations on a routing record.

use vstd::arithmetic::mul::lemma_mul_upper_bound;
use vstd::prelude::*;

use crate::math::Payout;
use crate::math::lemma_bps_le_sum;
use crate::math::lemma_payout_amounts_total;
use crate::math::lemma_payouts_take_step;
use crate::math::lemma_share_le_total;
use crate::math::lemma_shares_within_total;
use crate::math::lemma_sum_bps_take_step;
use crate::math::lemma_sum_shares_take_step;
use crate::math::payouts;
use crate::math::sum_payout_amounts;
use crate::math::sum_shares;
use crate::router::Address;
use crate::router::BPS_DENOMINATOR;
use crate::router::Deposited;
use crate::router::Distributed;
use crate::router::FeeRouterError;
use crate::router::MAX_RECIPIENTS;
use crate::router::ProofUpdated;
use crate::router::Router;
use crate::router::RouterInitialized;
use crate::router::RouterUpdated;
use crate::router::initialize_error;
use crate::router::split_error;
use crate::router::sum_bps;
use crate::router::update_error;
use crate::router::valid_split;

verus! {

/// Runs the split validation of initialize and update, in order: paired
/// lengths, a non-empty list, the recipient bound, then the exact
/// basis-point sum.
pub fn check_split(recipients: &Vec<Address>, bps: &Vec<u16>) -> (r: Result<(), FeeRouterError>)
    ensures
        r is Ok <==> valid_split(recipients@, bps@),
        r is Err ==> r == Err::<(), FeeRouterError>(split_error(recipients@, bps@)),
{
    if recipients.len() != bps.len() {
        return Err(FeeRouterError::InvalidSplit);
    }
    if recipients.len() == 0 {
        return Err(FeeRouterError::InvalidSplit);
    }
    if recipients.len() > MAX_RECIPIENTS {
        return Err(FeeRouterError::TooManyRecipients);
    }
    let mut sum: u32 = 0;
    let mut i: usize = 0;
    while i < bps.len()
        invariant
            0 <= i <= bps.len(),
            bps.len() <= MAX_RECIPIENTS,
            sum == sum_bps(bps@.take(i as int)),
            sum <= i * 65535,
        decreases bps.len() - i,
    {
        proof {
            lemma_sum_bps_take_step(bps@, i as int);
        }
        sum = sum + bps[i] as u32;
        i = i + 1;
    }
    proof {
        assert(bps@.take(bps@.len() as int) =~= bps@);
    }
    if sum != BPS_DENOMINATOR {
        return Err(FeeRouterError::InvalidSplit);
    }
    Ok(())
}

/// Creates the routing record for an asset: checks that the proposed asset
/// identifier matches the one the custody address derives from, validates
/// the split, and returns the record (with zeroed proof buffers) together
/// with the notification to emit. On any failure nothing is created.
pub fn initialize_router(
    authority: Address,
    mint: Address,
    derivation_mint: Address,
    recipients: Vec<Address>,
    bps: Vec<u16>,
    vault_bump: u8,
) -> (r: Result<(Router, RouterInitialized), FeeRouterError>)
    ensures
        r is Ok <==> mint == derivation_mint && valid_split(recipients@, bps@),
        r matches Ok(out) ==> {
            &&& out.0.authority == authority
            &&& out.0.mint == mint
            &&& out.0.recipients@ == recipients@
            &&& out.0.bps@ == bps@
            &&& out.0.vault_bump == vault_bump
            &&& forall|j: int| 0 <= j < 64 ==> out.0.last_mint@[j] == 0u8
            &&& forall|j: int| 0 <= j < 64 ==> out.0.last_claim@[j] == 0u8
            &&& forall|j: int| 0 <= j < 64 ==> out.0.last_distribute@[j] == 0u8
            &&& out.0.wf()
            &&& out.1 == (RouterInitialized { mint, authority })
        },
        r matches Err(e) ==> e == initialize_error(mint, derivation_mint, recipients@, bps@),
{
    if mint != derivation_mint {
        return Err(FeeRouterError::MintMismatch);
    }
    match check_split(&recipients, &bps) {
        Ok(()) => {},
        Err(e) => {
            return Err(e);
        },
    }
    let router = Router {
        authority,
        mint,
        recipients,
        bps,
        vault_bump,
        last_mint: [0u8; 64],
        last_claim: [0u8; 64],
        last_distribute: [0u8; 64],
    };
    Ok((router, RouterInitialized { mint, authority }))
}

/// Replaces the record's recipients and split. Only the stored authority may
/// call; the new split is validated exactly as at initialization. The asset
/// identifier, derivation tag and proof buffers are untouched, and on any
/// failure the whole record is unchanged.
pub fn update_router(
    router: &mut Router,
    caller: Address,
    recipients: Vec<Address>,
    bps: Vec<u16>,
) -> (r: Result<RouterUpdated, FeeRouterError>)
    ensures
        r is Ok <==> caller == old(router).authority && valid_split(recipients@, bps@),
        r is Ok ==> {
            &&& final(router).authority == old(router).authority
            &&& final(router).mint == old(router).mint
            &&& final(router).recipients@ == recipients@
            &&& final(router).bps@ == bps@
            &&& final(router).vault_bump == old(router).vault_bump
            &&& final(router).last_mint == old(router).last_mint
            &&& final(router).last_claim == old(router).last_claim
            &&& final(router).last_distribute == old(router).last_distribute
            &&& final(router).wf()
        },
        r matches Ok(ev) ==> ev == (RouterUpdated {
            mint: old(router).mint,
            authority: old(router).authority,
        }),
        r is Err ==> *final(router) == *old(router),
        r matches Err(e) ==> e == update_error(old(router).authority, caller, recipients@, bps@),
{
    if caller != router.authority {
        return Err(FeeRouterError::Unauthorized);
    }
    match check_split(&recipients, &bps) {
        Ok(()) => {},
        Err(e) => {
            return Err(e);
        },
    }
    router.recipients = recipients;
    router.bps = bps;
    Ok(RouterUpdated { mint: router.mint, authority: router.authority })
}

/// Accepts a deposit into custody: a zero amount is rejected with no effect;
/// a positive amount raises the custody balance by exactly that amount. The
/// returned balance is what the host must make true by moving the value from
/// the payer to the custody address.
pub fn deposit(router: &Router, vault_balance: u64, amount: u64) -> (r: Result<
    (u64, Deposited),
    FeeRouterError,
>)
    requires
        vault_balance + amount <= u64::MAX,
    ensures
        r is Ok <==> amount > 0,
        r matches Ok(out) ==> out.0 == vault_balance + amount && out.1 == (Deposited {
            mint: router.mint,
            amount,
        }),
        r matches Err(e) ==> e == FeeRouterError::InvalidAmount,
{
    if amount == 0 {
        return Err(FeeRouterError::InvalidAmount);
    }
    Ok((vault_balance + amount, Deposited { mint: router.mint, amount }))
}

/// Pays the custody balance out pro rata: each recipient's share is its
/// basis points of the balance, truncated; zero shares produce no payout.
/// Returns the payout instructions in stored order, the balance left in
/// custody (the truncation remainder — deliberately kept, never swept), and
/// the notification carrying the pre-distribution balance. An empty custody
/// balance is a distinct failure, not a silent no-op.
pub fn distribute(router: &Router, vault_balance: u64) -> (r: Result<
    (Vec<Payout>, u64, Distributed),
    FeeRouterError,
>)
    requires
        router.wf(),
    ensures
        r is Ok <==> vault_balance > 0,
        r matches Ok(out) ==> {
            &&& out.0@ == payouts(router.recipients@, router.bps@, vault_balance)
            &&& 0 <= sum_shares(vault_balance, router.bps@) <= vault_balance
            &&& out.1 == vault_balance - sum_shares(vault_balance, router.bps@)
            &&& out.1 + sum_payout_amounts(out.0@) == vault_balance
            &&& out.2 == (Distributed { mint: router.mint, total: vault_balance })
        },
        r matches Err(e) ==> e == FeeRouterError::EmptyVault,
{
    if vault_balance == 0 {
        return Err(FeeRouterError::EmptyVault);
    }
    let total = vault_balance;
    let n = router.recipients.len();
    let mut list: Vec<Payout> = Vec::new();
    let mut paid: u64 = 0;
    let mut i: usize = 0;
    while i < n
        invariant
            router.wf(),
            n == router.recipients@.len(),
            0 <= i <= n,
            paid == sum_shares(total, router.bps@.take(i as int)),
            paid <= total,
            list@ == payouts(router.recipients@.take(i as int), router.bps@.take(i as int), total),
        decreases n - i,
    {
        let b: u16 = router.bps[i];
        proof {
            lemma_bps_le_sum(router.bps@, i as int);
            lemma_share_le_total(total, b);
            lemma_mul_upper_bound(total as int, u64::MAX as int, b as int, u16::MAX as int);
        }
        let wide: u128 = ((total as u128) * (b as u128)) / (BPS_DENOMINATOR as u128);
        let share: u64 = wide as u64;
        proof {
            lemma_sum_shares_take_step(total, router.bps@, i as int);
            lemma_shares_within_total(total, router.bps@, i as int + 1);
            lemma_payouts_take_step(router.recipients@, router.bps@, total, i as int);
        }
        if share > 0 {
            list.push(Payout { to: router.recipients[i], amount: share });
        }
        paid = paid + share;
        i = i + 1;
    }
    proof {
        assert(router.bps@.take(n as int) =~= router.bps@);
        assert(router.recipients@.take(n as int) =~= router.recipients@);
        lemma_payout_amounts_total(router.recipients@, router.bps@, total);
    }
    Ok((list, total - paid, Distributed { mint: router.mint, total }))
}

/// The record with one proof buffer, selected by `kind`, overwritten
/// wholesale; every other field is kept.
pub open spec fn with_proof(r: Router, kind: u8, sig: [u8; 64]) -> Router {
    if kind == 0 {
        Router { last_mint: sig, ..r }
    } else if kind == 1 {
        Router { last_claim: sig, ..r }
    } else {
        Router { last_distribute: sig, ..r }
    }
}

/// Records the most recent attestation signature of one kind: `0` for mint,
/// `1` for claim, `2` for distribute. Only the stored authority may call; an
/// unknown kind is a distinct failure that touches no buffer.
pub fn set_proof(router: &mut Router, caller: Address, kind: u8, sig: [u8; 64]) -> (r: Result<
    ProofUpdated,
    FeeRouterError,
>)
    ensures
        r is Ok <==> caller == old(router).authority && kind < 3,
        r is Ok ==> *final(router) == with_proof(*old(router), kind, sig),
        r matches Ok(ev) ==> ev == (ProofUpdated { mint: old(router).mint, kind }),
        r is Err ==> *final(router) == *old(router),
        caller != old(router).authority ==> (r matches Err(e) && e == FeeRouterError::Unauthorized),
        caller == old(router).authority && kind >= 3 ==> (r matches Err(e) && e
            == FeeRouterError::InvalidProofKind),
{
    if caller != router.authority {
        return Err(FeeRouterError::Unauthorized);
    }
    match kind {
        0 => {
            router.last_mint = sig;
        },
        1 => {
            router.last_claim = sig;
        },
        2 => {
            router.last_distribute = sig;
        },
        _ => {
            return Err(FeeRouterError::InvalidProofKind);
        },
    }
    Ok(ProofUpdated { mint: router.mint, kind })
}

/// Recording a proof touches nothing but the buffer of its own kind: the
/// record's configuration is kept whole, and so are the other two buffers.
pub proof fn lemma_with_proof_frame(r: Router, kind: u8, sig: [u8; 64])
    ensures
        with_proof(r, kind, sig).authority == r.authority,
        with_proof(r, kind, sig).mint == r.mint,
        with_proof(r, kind, sig).recipients == r.recipients,
        with_proof(r, kind, sig).bps == r.bps,
        with_proof(r, kind, sig).vault_bump == r.vault_bump,
        kind == 0 ==> with_proof(r, kind, sig).last_mint == sig && with_proof(
            r,
            kind,
            sig,
        ).last_claim == r.last_claim && with_proof(r, kind, sig).last_distribute
            == r.last_distribute,
        kind == 1 ==> with_proof(r, kind, sig).last_claim == sig && with_proof(
            r,
            kind,
            sig,
        ).last_mint == r.last_mint && with_proof(r, kind, sig).last_distribute
            == r.last_distribute,
        kind >= 2 ==> with_proof(r, kind, sig).last_distribute == sig && with_proof(
            r,
            kind,
            sig,
        ).last_mint == r.last_mint && with_proof(r, kind, sig).last_claim == r.last_claim,
{
}

/// Recording a proof twice for the same kind is last-write-wins: the two
/// calls together leave the record exactly as the second call alone would,
/// so the buffer of that kind holds the second signature and — with the
/// frame above — neither call touches the other two buffers.
pub proof fn lemma_set_proof_last_write_wins(r: Router, kind: u8, first: [u8; 64], second: [u8; 64])
    ensures
        with_proof(with_proof(r, kind, first), kind, second) == with_proof(r, kind, second),
{
}

} // verus!
