//! Topping up the operating budget of a service: the resource units that
//! come attached to a call are accepted in full.

use vstd::prelude::*;

verus! {

/// How much of what was attached to a call was accepted.
#[derive(Debug, PartialEq, Eq)]
pub struct WalletReceiveResult {
    accepted: u64,
}

impl WalletReceiveResult {
    /// The accepted amount.
    pub fn accepted(&self) -> (r: u64)
        ensures
            r == self.spec_accepted(),
    {
        self.accepted
    }

    pub closed spec fn spec_accepted(&self) -> u64 {
        self.accepted
    }
}

/// How much of what is available on a call is to be accepted: all of it.
pub fn cycles_to_accept(available: u128) -> (r: u128)
    ensures
        r == available,
{
    available
}

/// The low 64 bits of an amount.
pub open spec fn low_half(amount: u128) -> u64 {
    (amount & 0xffff_ffff_ffff_ffff) as u64
}

/// The report on a call: nothing where nothing was available, else the
/// accepted amount, which is all that was available, cut to 64 bits.
pub fn wallet_receive(available: u128, accepted: u128) -> (r: WalletReceiveResult)
    requires
        available != 0 ==> accepted == available,
    ensures
        r.spec_accepted() == if available == 0 {
            0
        } else {
            low_half(accepted)
        },
{
    if available == 0 {
        return WalletReceiveResult { accepted: 0 };
    }
    WalletReceiveResult { accepted: (accepted & 0xffff_ffff_ffff_ffff) as u64 }
}

} // verus!
