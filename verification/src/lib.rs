//! Access-control reconciliation engine for a gated community space.
//!
//! Membership is granted and kept only while the member holds a paid
//! subscription on the Boosty platform. This crate holds the verified core:
//! the credential lifecycle, the subscription records and their paid
//! predicate, the membership link store with its uniqueness invariant, and
//! the decision logic for join requests, email linking and the periodic
//! reconciliation sweep. Transport, persistence and the chat front end live
//! outside the crate and hand plain values in and out.

pub mod auth;
pub mod client;
pub mod config;
pub mod subscribers;
pub mod decision;
pub mod email;
pub mod users;

use vstd::prelude::*;

verus! {

/// Saturating addition on `u128`: the sum, or `u128::MAX` when it would not fit.
pub open spec fn sat_add_u128(a: u128, b: u128) -> u128 {
    if a + b <= u128::MAX {
        (a + b) as u128
    } else {
        u128::MAX
    }
}

/// Saturating addition on `u64`: the sum, or `u64::MAX` when it would not fit.
pub open spec fn sat_add_u64(a: u64, b: u64) -> u64 {
    if a + b <= u64::MAX {
        (a + b) as u64
    } else {
        u64::MAX
    }
}

} // verus!
