//! Crank driver for a central-limit-order-book exchange: decoding of the
//! on-chain event-queue accounts, market-key resolution, consume-events
//! instruction building, and the per-tick dispatch decisions of the crank
//! control loop.

use vstd::prelude::*;

pub mod config;
pub mod decode;
pub mod driver;
pub mod queue;
pub mod instruction;
pub mod keys;
pub mod market;
pub mod owners;

verus! {

/// Runs the given closure; the label is accepted for interface compatibility
/// and otherwise ignored.
pub fn with_logging<F: FnOnce()>(_to: &str, fnc: F)
    requires
        call_requires(fnc, ()),
    ensures
        call_ensures(fnc, (), ()),
{
    fnc();
}

/// Folds the four words of an account address with wrapping addition,
/// yielding a short fingerprint used only for logging.
pub fn hash_accounts(val: &[u64; 4]) -> (r: u64)
    ensures
        r == (val[0] + val[1] + val[2] + val[3]) % 0x1_0000_0000_0000_0000,
{
    let a0: u64 = val[0];
    let a1: u64 = val[1].wrapping_add(a0);
    let a2: u64 = val[2].wrapping_add(a1);
    val[3].wrapping_add(a2)
}

} // verus!
