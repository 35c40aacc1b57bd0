//! Product authenticity library: organizations mint per-unit serial numbers,
//! stamp each print run with a single-use ECDSA code, and let customers and
//! resellers verify those codes, earn first-scan rewards, and stay within a
//! sliding-window rate limit.

use vstd::prelude::*;

pub mod admin;
pub mod api;
pub mod auth;
pub mod crypto;
pub mod errors;
pub mod model;
pub mod organizations;
pub mod products;
pub mod protocol;
pub mod rate_limiter;
pub mod resellers;
pub mod rewards;
pub mod hexstr;
pub mod idmap;
pub mod ids;
pub mod sessions;
pub mod state;
pub mod strutil;
pub mod users;
pub mod utils;
pub mod verification;

verus! {

/// Attempts allowed per rate-limit window.
pub const MAX_ATTEMPTS_PER_WINDOW: u32 = 5;

/// Length of a rate-limit window, in seconds.
pub const WINDOW_DURATION_SECONDS: u64 = 300;

} // verus!
