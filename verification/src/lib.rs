use vstd::prelude::*;

pub mod backends;
pub mod chapter;
pub mod errors;
pub mod fetch;
pub mod order;
pub mod codec;
pub mod html;
pub mod relib;
pub mod roundtrip;
pub mod strutil;
pub mod timestamp;

verus! {

/// Number of seconds a retry wait may reach before the fetch layer gives up.
pub const MAX_BACKOFF_SECS: u64 = 60;

} // verus!
