//! Canonical encoding: the deterministic binary form shared by storage
//! values, dispatch arguments, return values and event payloads. Integers
//! are fixed-width little-endian; composite values are the concatenation of
//! their fields; `Option` carries a one-byte discriminant. The same logical
//! value always encodes to the same bytes, and every encoder has a strict
//! decoder that accepts exactly the canonical form.

use vstd::prelude::*;
use crate::types::{AccountId, Balance, Digest};

verus! {

/// 256 raised to `n`: the number of distinct byte strings of length `n`.
pub open spec fn pow256(n: nat) -> nat
    decreases n,
{
    if n == 0 {
        1
    } else {
        256 * pow256((n - 1) as nat)
    }
}

/// The `n` little-endian base-256 digits of `v` (low byte first).
pub open spec fn le_bytes(v: nat, n: nat) -> Seq<u8>
    decreases n,
{
    if n == 0 {
        Seq::empty()
    } else {
        seq![(v % 256) as u8] + le_bytes(v / 256, (n - 1) as nat)
    }
}

/// The number whose little-endian base-256 digits are `s`.
pub open spec fn le_value(s: Seq<u8>) -> nat
    decreases s.len(),
{
    if s.len() == 0 {
        0
    } else {
        s[0] as nat + 256 * le_value(s.skip(1))
    }
}

pub proof fn lemma_le_bytes_len(v: nat, n: nat)
    ensures
        le_bytes(v, n).len() == n,
    decreases n,
{
    if n > 0 {
        lemma_le_bytes_len(v / 256, (n - 1) as nat);
    }
}

pub proof fn lemma_pow256_monotone(m: nat, n: nat)
    requires
        m <= n,
    ensures
        pow256(m) <= pow256(n),
    decreases n,
{
    if m < n && n > 0 {
        lemma_pow256_monotone(m, (n - 1) as nat);
        assert(pow256(n) == 256 * pow256((n - 1) as nat));
        assert(pow256((n - 1) as nat) <= 256 * pow256((n - 1) as nat)) by (nonlinear_arith);
    }
}

pub proof fn lemma_pow256_16()
    ensures
        pow256(16) == 0x100000000000000000000000000000000,
{
    reveal_with_fuel(pow256, 17);
}

/// Every value a byte string can denote is below `pow256` of its length.
pub proof fn lemma_le_value_bound(s: Seq<u8>)
    ensures
        le_value(s) < pow256(s.len()),
    decreases s.len(),
{
    if s.len() == 0 {
    } else {
        lemma_le_value_bound(s.skip(1));
        assert(le_value(s.skip(1)) < pow256((s.len() - 1) as nat));
        assert(s[0] as nat + 256 * le_value(s.skip(1)) < 256 * pow256((s.len() - 1) as nat)) by (nonlinear_arith)
            requires
                s[0] < 256,
                le_value(s.skip(1)) < pow256((s.len() - 1) as nat),
        ;
    }
}

/// Round trip at the digit level: encoding then decoding any value that
/// fits in `n` bytes yields the value back.
pub proof fn lemma_le_round_trip(v: nat, n: nat)
    requires
        v < pow256(n),
    ensures
        le_value(le_bytes(v, n)) == v,
    decreases n,
{
    if n == 0 {
    } else {
        assert(v / 256 < pow256((n - 1) as nat)) by (nonlinear_arith)
            requires
                v < 256 * pow256((n - 1) as nat),
        ;
        lemma_le_round_trip(v / 256, (n - 1) as nat);
        let s = le_bytes(v, n);
        assert(s.skip(1) =~= le_bytes(v / 256, (n - 1) as nat));
        assert(s[0] as nat == v % 256);
        assert(v % 256 + 256 * (v / 256) == v) by (nonlinear_arith);
    }
}

/// Appends the `n`-byte little-endian form of `v` to `out`.
pub fn encode_le(v: u128, n: usize, out: &mut Vec<u8>)
    ensures
        final(out)@ == old(out)@ + le_bytes(v as nat, n as nat),
    decreases n,
{
    if n == 0 {
        proof {
            assert(out@ =~= out@ + le_bytes(v as nat, 0));
        }
    } else {
        out.push((v % 256) as u8);
        encode_le(v / 256, n - 1, out);
        proof {
            assert(out@ =~= old(out)@ + le_bytes(v as nat, n as nat));
        }
    }
}

/// Reads the `n`-byte little-endian value starting at `off`; the strict
/// inverse of `encode_le` for any width up to sixteen bytes.
pub fn decode_le(s: &Vec<u8>, off: usize, n: usize) -> (r: u128)
    requires
        off + n <= s@.len(),
        n <= 16,
    ensures
        r as nat == le_value(s@.subrange(off as int, off as int + n)),
    decreases n,
{
    if n == 0 {
        proof {
            assert(s@.subrange(off as int, off as int).len() == 0);
        }
        0
    } else {
        let _len: usize = s.len();
        let b = s[off];
        let rest = decode_le(s, off + 1, n - 1);
        proof {
            let whole = s@.subrange(off as int, off as int + n);
            let tail = s@.subrange(off as int + 1, off as int + n);
            assert(whole.skip(1) =~= tail);
            assert(whole[0] == b);
            lemma_le_value_bound(tail);
            lemma_pow256_monotone(tail.len(), 15);
            lemma_pow256_16();
            assert(256 * le_value(tail) <= 256 * (pow256(15) - 1)) by (nonlinear_arith)
                requires
                    le_value(tail) <= pow256(15) - 1,
            ;
        }
        b as u128 + 256 * rest
    }
}

/// Canonical form of a boolean: one byte, zero or one.
pub open spec fn bool_bytes(b: bool) -> Seq<u8> {
    if b {
        seq![1u8]
    } else {
        seq![0u8]
    }
}

/// Appends the canonical form of `b` to `out`.
pub fn encode_bool(b: bool, out: &mut Vec<u8>)
    ensures
        final(out)@ == old(out)@ + bool_bytes(b),
{
    out.push(if b { 1u8 } else { 0u8 });
    proof {
        assert(out@ =~= old(out)@ + bool_bytes(b));
    }
}

/// Strictly decodes a boolean at `off`: exactly the bytes `0` and `1` are
/// accepted, so decoding succeeds precisely on canonical input.
pub fn decode_bool(s: &Vec<u8>, off: usize) -> (r: Option<bool>)
    requires
        off < s@.len(),
    ensures
        r == Some(true) <==> s@[off as int] == 1u8,
        r == Some(false) <==> s@[off as int] == 0u8,
        r is None <==> (s@[off as int] != 0u8 && s@[off as int] != 1u8),
{
    let b = s[off];
    if b == 0 {
        Some(false)
    } else if b == 1 {
        Some(true)
    } else {
        None
    }
}

/// Canonical form of a balance: sixteen little-endian bytes.
pub open spec fn balance_bytes(v: Balance) -> Seq<u8> {
    le_bytes(v as nat, 16)
}

/// Appends the canonical form of a balance to `out`.
pub fn encode_balance(v: Balance, out: &mut Vec<u8>)
    ensures
        final(out)@ == old(out)@ + balance_bytes(v),
{
    encode_le(v, 16, out);
}

/// Decodes the balance whose canonical form starts at `off`.
pub fn decode_balance(s: &Vec<u8>, off: usize) -> (r: Balance)
    requires
        off + 16 <= s@.len(),
    ensures
        r as nat == le_value(s@.subrange(off as int, off as int + 16)),
{
    decode_le(s, off, 16)
}

/// Canonical form of a principal: its thirty-two bytes, `lo` half first.
pub open spec fn account_bytes(a: AccountId) -> Seq<u8> {
    le_bytes(a.lo as nat, 16) + le_bytes(a.hi as nat, 16)
}

/// Appends the canonical form of a principal to `out`.
pub fn encode_account(a: &AccountId, out: &mut Vec<u8>)
    ensures
        final(out)@ == old(out)@ + account_bytes(*a),
{
    encode_le(a.lo, 16, out);
    encode_le(a.hi, 16, out);
    proof {
        assert(out@ =~= old(out)@ + account_bytes(*a));
    }
}

/// Decodes the principal whose canonical form starts at `off`.
pub fn decode_account(s: &Vec<u8>, off: usize) -> (r: AccountId)
    requires
        off + 32 <= s@.len(),
    ensures
        r == account_at(s@, off as int),
{
    let _len: usize = s.len();
    let lo = decode_le(s, off, 16);
    let hi = decode_le(s, off + 16, 16);
    proof {
        lemma_le_value_bound(s@.subrange(off as int, off as int + 16));
        lemma_le_value_bound(s@.subrange(off as int + 16, off as int + 32));
        lemma_pow256_16();
    }
    AccountId { lo, hi }
}

/// The principal some thirty-two bytes of `s` denote; a decoder's way of
/// naming the value it must return.
pub open spec fn account_at(s: Seq<u8>, off: int) -> AccountId {
    AccountId {
        lo: le_value(s.subrange(off, off + 16)) as u128,
        hi: le_value(s.subrange(off + 16, off + 32)) as u128,
    }
}

/// Canonical form of a digest: its thirty-two bytes, `lo` half first.
pub open spec fn digest_bytes(h: Digest) -> Seq<u8> {
    le_bytes(h.lo as nat, 16) + le_bytes(h.hi as nat, 16)
}

/// Appends the canonical form of a digest to `out`.
pub fn encode_digest(h: &Digest, out: &mut Vec<u8>)
    ensures
        final(out)@ == old(out)@ + digest_bytes(*h),
{
    encode_le(h.lo, 16, out);
    encode_le(h.hi, 16, out);
    proof {
        assert(out@ =~= old(out)@ + digest_bytes(*h));
    }
}

/// The digest some thirty-two bytes of `s` denote.
pub open spec fn digest_at(s: Seq<u8>, off: int) -> Digest {
    Digest {
        lo: le_value(s.subrange(off, off + 16)) as u128,
        hi: le_value(s.subrange(off + 16, off + 32)) as u128,
    }
}

/// Decodes the digest whose canonical form starts at `off`.
pub fn decode_digest(s: &Vec<u8>, off: usize) -> (r: Digest)
    requires
        off + 32 <= s@.len(),
    ensures
        r == digest_at(s@, off as int),
{
    let _len: usize = s.len();
    let lo = decode_le(s, off, 16);
    let hi = decode_le(s, off + 16, 16);
    proof {
        lemma_le_value_bound(s@.subrange(off as int, off as int + 16));
        lemma_le_value_bound(s@.subrange(off as int + 16, off as int + 32));
        lemma_pow256_16();
    }
    Digest { lo, hi }
}

/// Round trip for a digest: its canonical thirty-two bytes decode to it.
pub proof fn lemma_digest_round_trip(h: Digest)
    ensures
        digest_at(digest_bytes(h), 0) == h,
{
    let s = digest_bytes(h);
    lemma_le_bytes_len(h.lo as nat, 16);
    lemma_le_bytes_len(h.hi as nat, 16);
    assert(s.subrange(0, 16) =~= le_bytes(h.lo as nat, 16));
    assert(s.subrange(16, 32) =~= le_bytes(h.hi as nat, 16));
    lemma_pow256_16();
    lemma_le_round_trip(h.lo as nat, 16);
    lemma_le_round_trip(h.hi as nat, 16);
}

/// Canonical form of an optional principal: a one-byte discriminant, then
/// the principal's bytes when present.
pub open spec fn option_account_bytes(o: Option<AccountId>) -> Seq<u8> {
    match o {
        None => seq![0u8],
        Some(a) => seq![1u8] + account_bytes(a),
    }
}

/// Appends the canonical form of an optional principal to `out`.
pub fn encode_option_account(o: &Option<AccountId>, out: &mut Vec<u8>)
    ensures
        final(out)@ == old(out)@ + option_account_bytes(*o),
{
    match o {
        None => {
            out.push(0u8);
            proof {
                assert(out@ =~= old(out)@ + option_account_bytes(None::<AccountId>));
            }
        },
        Some(a) => {
            out.push(1u8);
            encode_account(a, out);
            proof {
                assert(out@ =~= old(out)@ + option_account_bytes(Some(*a)));
            }
        },
    }
}

/// Strictly decodes an optional principal at `off`, returning the value
/// and the number of bytes consumed; `None` means the discriminant is not
/// canonical or the buffer is too short for a present principal.
pub fn decode_option_account(s: &Vec<u8>, off: usize) -> (r: Option<(Option<AccountId>, usize)>)
    requires
        off < s@.len(),
    ensures
        s@[off as int] == 0u8 ==> r == Some((None::<AccountId>, 1usize)),
        s@[off as int] == 1u8 && off + 33 <= s@.len() ==> (r matches Some(p)
            && p.0 == Some(account_at(s@, off as int + 1)) && p.1 == 33usize),
        s@[off as int] == 1u8 && off + 33 > s@.len() ==> r is None,
        s@[off as int] != 0u8 && s@[off as int] != 1u8 ==> r is None,
{
    let len = s.len();
    let tag = s[off];
    if tag == 0 {
        Some((None, 1))
    } else if tag == 1 {
        if len - off >= 33 {
            let a = decode_account(s, off + 1);
            Some((Some(a), 33))
        } else {
            None
        }
    } else {
        None
    }
}

/// Round trip for a balance: its canonical sixteen bytes decode to it.
pub proof fn lemma_balance_round_trip(v: Balance)
    ensures
        le_value(balance_bytes(v)) == v as nat,
{
    lemma_pow256_16();
    lemma_le_round_trip(v as nat, 16);
}

/// Round trip for a principal: its canonical thirty-two bytes decode to it.
pub proof fn lemma_account_round_trip(a: AccountId)
    ensures
        account_at(account_bytes(a), 0) == a,
{
    let s = account_bytes(a);
    lemma_le_bytes_len(a.lo as nat, 16);
    lemma_le_bytes_len(a.hi as nat, 16);
    assert(s.subrange(0, 16) =~= le_bytes(a.lo as nat, 16));
    assert(s.subrange(16, 32) =~= le_bytes(a.hi as nat, 16));
    lemma_pow256_16();
    lemma_le_round_trip(a.lo as nat, 16);
    lemma_le_round_trip(a.hi as nat, 16);
}

/// The canonical form is injective on principals: equal encodings mean
/// equal values, so distinct principals never collide in storage keys.
pub proof fn lemma_account_bytes_injective(a: AccountId, b: AccountId)
    requires
        account_bytes(a) == account_bytes(b),
    ensures
        a == b,
{
    lemma_account_round_trip(a);
    lemma_account_round_trip(b);
}

/// Round trip for an optional principal: its canonical bytes hold a
/// canonical discriminant, and the principal, when present, decodes back.
pub proof fn lemma_option_account_round_trip(o: Option<AccountId>)
    ensures
        option_account_bytes(o)[0] == (if o is Some {
            1u8
        } else {
            0u8
        }),
        o matches Some(a) ==> option_account_bytes(o).len() == 33 && account_at(
            option_account_bytes(o),
            1,
        ) == a,
        o is None ==> option_account_bytes(o).len() == 1,
{
    if let Some(a) = o {
        let s = option_account_bytes(o);
        lemma_le_bytes_len(a.lo as nat, 16);
        lemma_le_bytes_len(a.hi as nat, 16);
        assert(s.subrange(1, 33) =~= account_bytes(a));
        assert(s.subrange(1, 17) =~= account_bytes(a).subrange(0, 16));
        assert(s.subrange(17, 33) =~= account_bytes(a).subrange(16, 32));
        lemma_account_round_trip(a);
    }
}

} // verus!
