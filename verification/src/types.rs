//! Plain-data value types shared by every layer: principals, balances,
//! digests. All of them are freely copyable and compared by their fields.

use vstd::prelude::*;

verus! {

/// Unit of value held by accounts and moved by token transfers.
/// Arithmetic on balances is always checked; overflow is fatal.
pub type Balance = u128;

/// An opaque 32-byte principal identifier, modelled as two 128-bit words
/// (`lo` holds the first sixteen bytes of the canonical form, `hi` the rest).
#[derive(Clone, Copy, Debug, PartialEq, Eq, Structural)]
pub struct AccountId {
    pub lo: u128,
    pub hi: u128,
}

impl AccountId {
    /// Builds a principal from its two 128-bit words.
    pub fn new(lo: u128, hi: u128) -> (a: AccountId)
        ensures
            a.lo == lo,
            a.hi == hi,
    {
        AccountId { lo, hi }
    }

    /// A short-form principal whose first byte is `b` and whose other
    /// thirty-one bytes are zero; convenient for well-known test accounts.
    pub fn from_byte(b: u8) -> (a: AccountId)
        ensures
            a.lo == b as u128,
            a.hi == 0,
    {
        AccountId { lo: b as u128, hi: 0 }
    }

    /// The all-zero principal.
    pub fn zero() -> (a: AccountId)
        ensures
            a.lo == 0,
            a.hi == 0,
    {
        AccountId { lo: 0, hi: 0 }
    }
}

/// An opaque 32-byte digest value, plain data to every layer here; only the
/// host ever computes one.
#[derive(Clone, Copy, Debug, PartialEq, Eq, Structural)]
pub struct Digest {
    pub lo: u128,
    pub hi: u128,
}

impl Digest {
    /// Builds a digest from its two 128-bit words.
    pub fn new(lo: u128, hi: u128) -> (h: Digest)
        ensures
            h.lo == lo,
            h.hi == hi,
    {
        Digest { lo, hi }
    }

    /// The all-zero digest, the unset value of a digest-typed cell.
    pub fn zero() -> (h: Digest)
        ensures
            h.lo == 0,
            h.hi == 0,
    {
        Digest { lo: 0, hi: 0 }
    }
}

} // verus!
