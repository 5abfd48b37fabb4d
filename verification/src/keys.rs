//! Account addresses as four little-endian 64-bit words, with the
//! lexicographic word order used to keep dispatched owner lists sorted.

use vstd::prelude::*;

verus! {

/// A 32-byte account address, held as four little-endian 64-bit words in the
/// alignment the on-chain account layouts use.
#[derive(Clone, Copy, Debug, PartialEq, Eq, Structural)]
pub struct Pubkey {
    pub w0: u64,
    pub w1: u64,
    pub w2: u64,
    pub w3: u64,
}

impl View for Pubkey {
    type V = Seq<u64>;

    open spec fn view(&self) -> Seq<u64> {
        seq![self.w0, self.w1, self.w2, self.w3]
    }
}

impl Pubkey {
    /// Builds an address from its four little-endian words.
    pub fn new(w0: u64, w1: u64, w2: u64, w3: u64) -> (r: Pubkey)
        ensures
            r == (Pubkey { w0, w1, w2, w3 }),
    {
        Pubkey { w0, w1, w2, w3 }
    }
}

/// Strict lexicographic order on two addresses.
pub open spec fn key_lt(a: Pubkey, b: Pubkey) -> bool {
    ||| a.w0 < b.w0
    ||| (a.w0 == b.w0 && a.w1 < b.w1)
    ||| (a.w0 == b.w0 && a.w1 == b.w1 && a.w2 < b.w2)
    ||| (a.w0 == b.w0 && a.w1 == b.w1 && a.w2 == b.w2 && a.w3 < b.w3)
}

/// Compares two addresses in the lexicographic word order.
pub fn pubkey_lt(a: &Pubkey, b: &Pubkey) -> (r: bool)
    ensures
        r == key_lt(*a, *b),
{
    if a.w0 != b.w0 {
        a.w0 < b.w0
    } else if a.w1 != b.w1 {
        a.w1 < b.w1
    } else if a.w2 != b.w2 {
        a.w2 < b.w2
    } else {
        a.w3 < b.w3
    }
}

/// The order is total: of two distinct addresses exactly one is strictly
/// below the other, and none is below itself.
pub proof fn lemma_key_lt_total(a: Pubkey, b: Pubkey)
    ensures
        key_lt(a, b) || key_lt(b, a) || a == b,
        !(key_lt(a, b) && key_lt(b, a)),
        !key_lt(a, a),
{
}

/// The order is transitive.
pub proof fn lemma_key_lt_trans(a: Pubkey, b: Pubkey, c: Pubkey)
    requires
        key_lt(a, b),
        key_lt(b, c),
    ensures
        key_lt(a, c),
{
}

} // verus!
