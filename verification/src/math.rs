//! The pro-rata share arithmetic of a distribution and its bounds.
//!
//! A distribution of a custody balance `total` pays each recipient
//! `floor(total * bps / BPS_DENOMINATOR)`. Because a valid split's basis
//! points sum to exactly `BPS_DENOMINATOR`, the truncated shares sum to at
//! most `total`; the difference stays in custody.

use vstd::arithmetic::div_mod::lemma_div_is_ordered;
use vstd::arithmetic::div_mod::lemma_div_multiples_vanish;
use vstd::arithmetic::div_mod::lemma_fundamental_div_mod;
use vstd::arithmetic::div_mod::lemma_fundamental_div_mod_converse_div;
use vstd::arithmetic::div_mod::lemma_mod_division_less_than_divisor;
use vstd::arithmetic::mul::lemma_mul_inequality;
use vstd::arithmetic::mul::lemma_mul_is_commutative;
use vstd::arithmetic::mul::lemma_mul_is_distributive_add;
use vstd::arithmetic::mul::lemma_mul_nonnegative;
use vstd::prelude::*;

use crate::router::Address;
use crate::router::BPS_DENOMINATOR;
use crate::router::sum_bps;

verus! {

/// One payout instruction for the host's transfer primitive: move `amount`
/// out of custody to `to`.
#[derive(Clone, Copy, PartialEq, Eq, Structural, Debug)]
pub struct Payout {
    pub to: Address,
    pub amount: u64,
}

/// The share one recipient receives of `total` at `bps` basis points,
/// truncated toward zero.
pub open spec fn share_of(total: u64, bps: u16) -> int {
    (total as int * bps as int) / (BPS_DENOMINATOR as int)
}

/// The shares of every entry of `bps`, summed; zero shares count (as zero).
pub open spec fn sum_shares(total: u64, bps: Seq<u16>) -> int
    decreases bps.len(),
{
    if bps.len() == 0 {
        0
    } else {
        sum_shares(total, bps.drop_last()) + share_of(total, bps.last())
    }
}

/// The payout list a distribution of `total` produces: one entry per
/// recipient whose share is positive, in stored order.
pub open spec fn payouts(recipients: Seq<Address>, bps: Seq<u16>, total: u64) -> Seq<Payout>
    decreases recipients.len(),
{
    if recipients.len() == 0 || bps.len() == 0 {
        Seq::empty()
    } else {
        let rest = payouts(recipients.drop_last(), bps.drop_last(), total);
        let s = share_of(total, bps.last());
        if s > 0 {
            rest.push(Payout { to: recipients.last(), amount: s as u64 })
        } else {
            rest
        }
    }
}

/// A sum of basis points is nonnegative.
pub proof fn lemma_sum_bps_nonneg(s: Seq<u16>)
    ensures
        sum_bps(s) >= 0,
    decreases s.len(),
{
    if s.len() > 0 {
        lemma_sum_bps_nonneg(s.drop_last());
    }
}

/// Each basis-point entry is at most the sum of all of them.
pub proof fn lemma_bps_le_sum(s: Seq<u16>, i: int)
    requires
        0 <= i < s.len(),
    ensures
        s[i] <= sum_bps(s),
    decreases s.len(),
{
    lemma_sum_bps_nonneg(s.drop_last());
    if i < s.len() - 1 {
        lemma_bps_le_sum(s.drop_last(), i);
    }
}

/// Extending a prefix by one entry adds that entry to the sum.
pub proof fn lemma_sum_bps_take_step(s: Seq<u16>, i: int)
    requires
        0 <= i < s.len(),
    ensures
        sum_bps(s.take(i + 1)) == sum_bps(s.take(i)) + s[i],
{
    assert(s.take(i + 1).drop_last() =~= s.take(i));
    assert(s.take(i + 1).last() == s[i]);
}

/// A prefix of the basis points sums to no more than the whole.
pub proof fn lemma_sum_bps_take_le(s: Seq<u16>, i: int)
    requires
        0 <= i <= s.len(),
    ensures
        sum_bps(s.take(i)) <= sum_bps(s),
    decreases s.len() - i,
{
    if i == s.len() {
        assert(s.take(i) =~= s);
    } else {
        lemma_sum_bps_take_step(s, i);
        lemma_sum_bps_take_le(s, i + 1);
    }
}

/// Truncated division distributes over addition with slack in one direction
/// only: the two truncations together lose at least as much as one.
proof fn lemma_div_sum_le(a: int, b: int)
    requires
        a >= 0,
        b >= 0,
    ensures
        a / (BPS_DENOMINATOR as int) + b / (BPS_DENOMINATOR as int) <= (a + b) / (
        BPS_DENOMINATOR as int),
{
    let d = BPS_DENOMINATOR as int;
    let qa = a / d;
    let ra = a % d;
    let qb = b / d;
    let rb = b % d;
    lemma_fundamental_div_mod(a, d);
    lemma_fundamental_div_mod(b, d);
    lemma_mod_division_less_than_divisor(a, d);
    lemma_mod_division_less_than_divisor(b, d);
    if ra + rb < d {
        lemma_fundamental_div_mod_converse_div(a + b, d, qa + qb, ra + rb);
    } else {
        lemma_fundamental_div_mod_converse_div(a + b, d, qa + qb + 1, ra + rb - d);
    }
}

/// The truncated shares sum to at most the untruncated weighted total.
proof fn lemma_sum_shares_le_weighted(total: u64, bps: Seq<u16>)
    ensures
        0 <= sum_shares(total, bps),
        sum_shares(total, bps) <= (total as int * sum_bps(bps)) / (BPS_DENOMINATOR as int),
    decreases bps.len(),
{
    let d = BPS_DENOMINATOR as int;
    if bps.len() == 0 {
    } else {
        let rest = bps.drop_last();
        lemma_sum_shares_le_weighted(total, rest);
        lemma_sum_bps_nonneg(rest);
        let a = total as int * sum_bps(rest);
        let b = total as int * bps.last() as int;
        lemma_mul_nonnegative(total as int, sum_bps(rest));
        lemma_mul_nonnegative(total as int, bps.last() as int);
        lemma_div_sum_le(a, b);
        lemma_mul_is_distributive_add(total as int, sum_bps(rest), bps.last() as int);
        lemma_div_is_ordered(0, b, d);
    }
}

/// One share of a valid split never exceeds the balance it is cut from.
pub proof fn lemma_share_le_total(total: u64, bps: u16)
    requires
        bps <= BPS_DENOMINATOR,
    ensures
        0 <= share_of(total, bps) <= total,
{
    let d = BPS_DENOMINATOR as int;
    let t = total as int;
    lemma_mul_nonnegative(t, bps as int);
    lemma_div_is_ordered(0, t * bps as int, d);
    lemma_mul_inequality(bps as int, d, t);
    lemma_mul_is_commutative(bps as int, t);
    lemma_mul_is_commutative(d, t);
    lemma_div_is_ordered(t * bps as int, t * d, d);
    lemma_mul_is_commutative(t, d);
    lemma_div_multiples_vanish(t, d);
}

/// With a valid split, the shares of any prefix of the recipients sum to at
/// most the custody balance. Taking the whole sequence: a distribution never
/// moves more than the balance, and the truncation remainder it leaves in
/// custody is nonnegative.
pub proof fn lemma_shares_within_total(total: u64, bps: Seq<u16>, i: int)
    requires
        sum_bps(bps) == BPS_DENOMINATOR,
        0 <= i <= bps.len(),
    ensures
        0 <= sum_shares(total, bps.take(i)) <= total,
{
    let d = BPS_DENOMINATOR as int;
    let t = total as int;
    lemma_sum_shares_le_weighted(total, bps.take(i));
    lemma_sum_bps_take_le(bps, i);
    lemma_sum_bps_nonneg(bps.take(i));
    lemma_mul_inequality(sum_bps(bps.take(i)), d, t);
    lemma_mul_is_commutative(sum_bps(bps.take(i)), t);
    lemma_mul_is_commutative(d, t);
    lemma_div_is_ordered(t * sum_bps(bps.take(i)), t * d, d);
    lemma_mul_is_commutative(t, d);
    lemma_div_multiples_vanish(t, d);
}

/// Extending a prefix by one recipient adds that recipient's share to the
/// running sum.
pub proof fn lemma_sum_shares_take_step(total: u64, s: Seq<u16>, i: int)
    requires
        0 <= i < s.len(),
    ensures
        sum_shares(total, s.take(i + 1)) == sum_shares(total, s.take(i)) + share_of(total, s[i]),
{
    assert(s.take(i + 1).drop_last() =~= s.take(i));
    assert(s.take(i + 1).last() == s[i]);
}

/// The amounts of a payout list, summed.
pub open spec fn sum_payout_amounts(ps: Seq<Payout>) -> int
    decreases ps.len(),
{
    if ps.len() == 0 {
        0
    } else {
        sum_payout_amounts(ps.drop_last()) + ps.last().amount
    }
}

proof fn lemma_payout_amounts_bounded_elems(recipients: Seq<Address>, bps: Seq<u16>, total: u64)
    requires
        recipients.len() == bps.len(),
        forall|i: int| 0 <= i < bps.len() ==> bps[i] <= BPS_DENOMINATOR,
    ensures
        sum_payout_amounts(payouts(recipients, bps, total)) == sum_shares(total, bps),
    decreases recipients.len(),
{
    if recipients.len() > 0 {
        let rr = recipients.drop_last();
        let rb = bps.drop_last();
        assert(forall|i: int| 0 <= i < rb.len() ==> rb[i] == bps[i]);
        lemma_payout_amounts_bounded_elems(rr, rb, total);
        assert(bps.last() == bps[bps.len() - 1]);
        lemma_share_le_total(total, bps.last());
        let s = share_of(total, bps.last());
        if s > 0 {
            let rest = payouts(rr, rb, total);
            let p = Payout { to: recipients.last(), amount: s as u64 };
            assert(rest.push(p).drop_last() =~= rest);
            assert(rest.push(p).last() == p);
        }
    }
}

/// Distribution conserves custody value: the amounts in the payout list sum
/// to exactly the shares' sum (a recipient whose share truncates to zero is
/// skipped and contributes nothing), so the balance splits into what the
/// payouts move and the remainder that stays in custody.
pub proof fn lemma_payout_amounts_total(recipients: Seq<Address>, bps: Seq<u16>, total: u64)
    requires
        recipients.len() == bps.len(),
        sum_bps(bps) == BPS_DENOMINATOR,
    ensures
        sum_payout_amounts(payouts(recipients, bps, total)) == sum_shares(total, bps),
{
    assert forall|i: int| 0 <= i < bps.len() implies bps[i] <= BPS_DENOMINATOR by {
        lemma_bps_le_sum(bps, i);
    }
    lemma_payout_amounts_bounded_elems(recipients, bps, total);
}

/// Extending a prefix by one recipient appends that recipient's payout when
/// its share is positive and nothing otherwise.
pub proof fn lemma_payouts_take_step(recipients: Seq<Address>, bps: Seq<u16>, total: u64, i: int)
    requires
        0 <= i < recipients.len(),
        recipients.len() == bps.len(),
    ensures
        share_of(total, bps[i]) > 0 ==> payouts(recipients.take(i + 1), bps.take(i + 1), total)
            == payouts(recipients.take(i), bps.take(i), total).push(
            (Payout { to: recipients[i], amount: share_of(total, bps[i]) as u64 }),
        ),
        share_of(total, bps[i]) <= 0 ==> payouts(recipients.take(i + 1), bps.take(i + 1), total)
            == payouts(recipients.take(i), bps.take(i), total),
{
    assert(recipients.take(i + 1).drop_last() =~= recipients.take(i));
    assert(bps.take(i + 1).drop_last() =~= bps.take(i));
    assert(recipients.take(i + 1).last() == recipients[i]);
    assert(bps.take(i + 1).last() == bps[i]);
}

} // verus!
