//! A custodial fee-routing library.
//!
//! A routing record ties an asset identifier to an ordered list of recipient
//! addresses and a basis-point split summing to exactly 10000. Deposits
//! accumulate in a custody balance; a distribute operation pays the balance
//! out pro rata with integer truncation, deliberately leaving any truncation
//! remainder in custody. An authorized operator may also record the most
//! recent attestation signature for each of three event kinds.
//!
//! The library is the decision core alone: every operation is a function from
//! plain values (the record, the custody balance, the request) to plain
//! values (the new record or balance, the payout instructions, the emitted
//! event, or a distinct error). Performing the value transfers and persisting
//! the record are the host's business.

pub mod math;
pub mod ops;
pub mod router;
