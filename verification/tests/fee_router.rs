use fee_router::math::Payout;
use fee_router::ops::deposit;
use fee_router::ops::distribute;
use fee_router::ops::initialize_router;
use fee_router::ops::set_proof;
use fee_router::ops::update_router;
use fee_router::router::Address;
use fee_router::router::Deposited;
use fee_router::router::Distributed;
use fee_router::router::FeeRouterError;
use fee_router::router::ProofUpdated;
use fee_router::router::Router;
use fee_router::router::RouterInitialized;
use fee_router::router::RouterUpdated;

fn addr(n: u128) -> Address {
    Address { hi: n, lo: n.wrapping_mul(31) }
}

/// A freshly initialized record: authority `addr(9)`, mint `addr(5)`,
/// recipients `[addr(1), addr(2)]`, split `[7000, 3000]`, bump 42.
fn sample_router() -> Router {
    let (router, _) = initialize_router(
        addr(9),
        addr(5),
        addr(5),
        vec![addr(1), addr(2)],
        vec![7000, 3000],
        42,
    )
    .unwrap();
    router
}

#[test]
fn initialize_stores_fields() {
    let res = initialize_router(
        addr(9),
        addr(5),
        addr(5),
        vec![addr(1), addr(2)],
        vec![7000, 3000],
        42,
    );
    let (router, ev) = res.unwrap();
    assert_eq!(router.authority, addr(9));
    assert_eq!(router.mint, addr(5));
    assert_eq!(router.recipients, vec![addr(1), addr(2)]);
    assert_eq!(router.bps, vec![7000, 3000]);
    assert_eq!(router.vault_bump, 42);
    assert_eq!(router.last_mint, [0u8; 64]);
    assert_eq!(router.last_claim, [0u8; 64]);
    assert_eq!(router.last_distribute, [0u8; 64]);
    assert_eq!(ev, RouterInitialized { mint: addr(5), authority: addr(9) });
}

#[test]
fn initialize_accepts_single_recipient() {
    let (router, _) =
        initialize_router(addr(9), addr(5), addr(5), vec![addr(1)], vec![10000], 0).unwrap();
    assert_eq!(router.recipients, vec![addr(1)]);
    assert_eq!(router.bps, vec![10000]);
}

#[test]
fn initialize_accepts_eight_recipients() {
    let recipients: Vec<Address> = (1..=8).map(addr).collect();
    let bps = vec![1250u16; 8];
    let (router, _) = initialize_router(addr(9), addr(5), addr(5), recipients, bps, 0).unwrap();
    assert_eq!(router.recipients.len(), 8);
}

#[test]
fn initialize_rejects_mint_mismatch() {
    let res = initialize_router(
        addr(9),
        addr(5),
        addr(6),
        vec![addr(1), addr(2)],
        vec![7000, 3000],
        42,
    );
    assert_eq!(res.unwrap_err(), FeeRouterError::MintMismatch);
}

#[test]
fn initialize_rejects_length_mismatch() {
    let res = initialize_router(addr(9), addr(5), addr(5), vec![addr(1), addr(2)], vec![10000], 42);
    assert_eq!(res.unwrap_err(), FeeRouterError::InvalidSplit);
}

#[test]
fn initialize_rejects_empty_recipients() {
    let res = initialize_router(addr(9), addr(5), addr(5), vec![], vec![], 42);
    assert_eq!(res.unwrap_err(), FeeRouterError::InvalidSplit);
}

#[test]
fn initialize_rejects_nine_recipients() {
    let recipients: Vec<Address> = (1..=9).map(addr).collect();
    let bps = vec![1000u16; 9];
    let res = initialize_router(addr(9), addr(5), addr(5), recipients, bps, 42);
    assert_eq!(res.unwrap_err(), FeeRouterError::TooManyRecipients);
}

#[test]
fn initialize_rejects_sum_below_total() {
    let res = initialize_router(
        addr(9),
        addr(5),
        addr(5),
        vec![addr(1), addr(2)],
        vec![5000, 4999],
        42,
    );
    assert_eq!(res.unwrap_err(), FeeRouterError::InvalidSplit);
}

#[test]
fn initialize_rejects_all_zero_split() {
    let res = initialize_router(addr(9), addr(5), addr(5), vec![addr(1), addr(2)], vec![0, 0], 42);
    assert_eq!(res.unwrap_err(), FeeRouterError::InvalidSplit);
}

#[test]
fn initialize_rejects_overflowing_sum() {
    let recipients: Vec<Address> = (1..=8).map(addr).collect();
    let bps = vec![65535u16; 8];
    let res = initialize_router(addr(9), addr(5), addr(5), recipients, bps, 42);
    assert_eq!(res.unwrap_err(), FeeRouterError::InvalidSplit);
}

#[test]
fn update_replaces_split() {
    let mut router = sample_router();
    let res = update_router(&mut router, addr(9), vec![addr(3)], vec![10000]);
    assert_eq!(res.unwrap(), RouterUpdated { mint: addr(5), authority: addr(9) });
    assert_eq!(router.recipients, vec![addr(3)]);
    assert_eq!(router.bps, vec![10000]);
    assert_eq!(router.authority, addr(9));
    assert_eq!(router.mint, addr(5));
    assert_eq!(router.vault_bump, 42);
}

#[test]
fn update_rejects_bad_sum_and_keeps_state() {
    let mut router = sample_router();
    let res = update_router(&mut router, addr(9), vec![addr(3), addr(4)], vec![9000, 999]);
    assert_eq!(res.unwrap_err(), FeeRouterError::InvalidSplit);
    assert_eq!(router.recipients, vec![addr(1), addr(2)]);
    assert_eq!(router.bps, vec![7000, 3000]);
}

#[test]
fn update_rejects_wrong_caller_and_keeps_state() {
    let mut router = sample_router();
    let res = update_router(&mut router, addr(8), vec![addr(3)], vec![10000]);
    assert_eq!(res.unwrap_err(), FeeRouterError::Unauthorized);
    assert_eq!(router.recipients, vec![addr(1), addr(2)]);
    assert_eq!(router.bps, vec![7000, 3000]);
    assert_eq!(router.authority, addr(9));
}

#[test]
fn update_rejects_nine_recipients() {
    let mut router = sample_router();
    let recipients: Vec<Address> = (1..=9).map(addr).collect();
    let res = update_router(&mut router, addr(9), recipients, vec![1000u16; 9]);
    assert_eq!(res.unwrap_err(), FeeRouterError::TooManyRecipients);
    assert_eq!(router.recipients, vec![addr(1), addr(2)]);
}

#[test]
fn initialize_checks_mint_before_split() {
    let res = initialize_router(addr(9), addr(5), addr(6), vec![addr(1)], vec![1], 42);
    assert_eq!(res.unwrap_err(), FeeRouterError::MintMismatch);
}

#[test]
fn update_checks_caller_before_split() {
    let mut router = sample_router();
    let res = update_router(&mut router, addr(8), vec![addr(1)], vec![1]);
    assert_eq!(res.unwrap_err(), FeeRouterError::Unauthorized);
}

#[test]
fn deposit_of_zero_fails() {
    let router = sample_router();
    let res = deposit(&router, 100, 0);
    assert_eq!(res.unwrap_err(), FeeRouterError::InvalidAmount);
}

#[test]
fn deposit_increases_balance_exactly() {
    let router = sample_router();
    let (balance, ev) = deposit(&router, 100, 42).unwrap();
    assert_eq!(balance, 142);
    assert_eq!(ev, Deposited { mint: addr(5), amount: 42 });
}

#[test]
fn distribute_seventy_thirty_of_ten() {
    let router = sample_router();
    let (payouts, remaining, ev) = distribute(&router, 10).unwrap();
    assert_eq!(
        payouts,
        vec![Payout { to: addr(1), amount: 7 }, Payout { to: addr(2), amount: 3 }]
    );
    assert_eq!(remaining, 0);
    assert_eq!(ev, Distributed { mint: addr(5), total: 10 });
}

#[test]
fn distribute_of_one_truncates_both_shares() {
    let (router, _) = initialize_router(
        addr(9),
        addr(5),
        addr(5),
        vec![addr(1), addr(2)],
        vec![5000, 5000],
        42,
    )
    .unwrap();
    let (payouts, remaining, ev) = distribute(&router, 1).unwrap();
    assert_eq!(payouts, vec![]);
    assert_eq!(remaining, 1);
    assert_eq!(ev, Distributed { mint: addr(5), total: 1 });
}

#[test]
fn distribute_of_empty_vault_fails() {
    let router = sample_router();
    let res = distribute(&router, 0);
    assert_eq!(res.unwrap_err(), FeeRouterError::EmptyVault);
}

#[test]
fn distribute_leaves_truncation_remainder() {
    let (router, _) = initialize_router(
        addr(9),
        addr(5),
        addr(5),
        vec![addr(1), addr(2)],
        vec![1, 9999],
        42,
    )
    .unwrap();
    let (payouts, remaining, _) = distribute(&router, 12345).unwrap();
    assert_eq!(
        payouts,
        vec![Payout { to: addr(1), amount: 1 }, Payout { to: addr(2), amount: 12343 }]
    );
    assert_eq!(remaining, 1);
}

#[test]
fn distribute_skips_zero_share_recipient() {
    let (router, _) = initialize_router(
        addr(9),
        addr(5),
        addr(5),
        vec![addr(1), addr(2)],
        vec![1, 9999],
        42,
    )
    .unwrap();
    let (payouts, remaining, _) = distribute(&router, 100).unwrap();
    assert_eq!(payouts, vec![Payout { to: addr(2), amount: 99 }]);
    assert_eq!(remaining, 1);
}

#[test]
fn set_proof_writes_each_kind() {
    let mut router = sample_router();
    let ev = set_proof(&mut router, addr(9), 0, [1u8; 64]).unwrap();
    assert_eq!(ev, ProofUpdated { mint: addr(5), kind: 0 });
    assert_eq!(router.last_mint, [1u8; 64]);
    assert_eq!(router.last_claim, [0u8; 64]);
    assert_eq!(router.last_distribute, [0u8; 64]);

    let ev = set_proof(&mut router, addr(9), 1, [2u8; 64]).unwrap();
    assert_eq!(ev, ProofUpdated { mint: addr(5), kind: 1 });
    assert_eq!(router.last_mint, [1u8; 64]);
    assert_eq!(router.last_claim, [2u8; 64]);
    assert_eq!(router.last_distribute, [0u8; 64]);

    let ev = set_proof(&mut router, addr(9), 2, [3u8; 64]).unwrap();
    assert_eq!(ev, ProofUpdated { mint: addr(5), kind: 2 });
    assert_eq!(router.last_mint, [1u8; 64]);
    assert_eq!(router.last_claim, [2u8; 64]);
    assert_eq!(router.last_distribute, [3u8; 64]);
}

#[test]
fn set_proof_rejects_kind_three_and_keeps_buffers() {
    let mut router = sample_router();
    set_proof(&mut router, addr(9), 0, [1u8; 64]).unwrap();
    set_proof(&mut router, addr(9), 1, [2u8; 64]).unwrap();
    set_proof(&mut router, addr(9), 2, [3u8; 64]).unwrap();
    let res = set_proof(&mut router, addr(9), 3, [4u8; 64]);
    assert_eq!(res.unwrap_err(), FeeRouterError::InvalidProofKind);
    assert_eq!(router.last_mint, [1u8; 64]);
    assert_eq!(router.last_claim, [2u8; 64]);
    assert_eq!(router.last_distribute, [3u8; 64]);
}

#[test]
fn set_proof_rejects_wrong_caller_and_keeps_buffers() {
    let mut router = sample_router();
    let res = set_proof(&mut router, addr(1), 0, [1u8; 64]);
    assert_eq!(res.unwrap_err(), FeeRouterError::Unauthorized);
    assert_eq!(router.last_mint, [0u8; 64]);
    assert_eq!(router.last_claim, [0u8; 64]);
    assert_eq!(router.last_distribute, [0u8; 64]);
}

#[test]
fn set_proof_twice_keeps_second_value_only() {
    let mut router = sample_router();
    set_proof(&mut router, addr(9), 1, [7u8; 64]).unwrap();
    set_proof(&mut router, addr(9), 1, [8u8; 64]).unwrap();
    assert_eq!(router.last_claim, [8u8; 64]);
    assert_eq!(router.last_mint, [0u8; 64]);
    assert_eq!(router.last_distribute, [0u8; 64]);
}

#[test]
fn space_matches_fixed_layout() {
    assert_eq!(Router::space(), 545);
}

#[test]
fn deposit_then_distribute_flow() {
    let router = sample_router();
    let (balance, _) = deposit(&router, 0, 1000).unwrap();
    assert_eq!(balance, 1000);
    let (payouts, remaining, ev) = distribute(&router, balance).unwrap();
    assert_eq!(
        payouts,
        vec![Payout { to: addr(1), amount: 700 }, Payout { to: addr(2), amount: 300 }]
    );
    assert_eq!(remaining, 0);
    assert_eq!(ev, Distributed { mint: addr(5), total: 1000 });
}
