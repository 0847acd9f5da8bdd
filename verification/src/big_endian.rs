//! Natural numbers as big-endian byte strings.
//!
//! Lengths and integers travel on the wire as the shortest big-endian byte
//! string of their value: no leading zero byte, and the empty string for
//! zero. This module defines both directions and proves that they are
//! inverse to each other on such strings.

use vstd::prelude::*;

verus! {

/// 256 to the power of `k`.
pub open spec fn pow256(k: nat) -> nat
    decreases k,
{
    if k == 0 {
        1
    } else {
        256 * pow256((k - 1) as nat)
    }
}

/// The number that the bytes `s` spell, most significant byte first.
pub open spec fn be_value(s: Seq<u8>) -> nat
    decreases s.len(),
{
    if s.len() == 0 {
        0
    } else {
        be_value(s.drop_last()) * 256 + s.last() as nat
    }
}

/// The shortest big-endian byte string of `n`; empty for zero.
pub open spec fn be_bytes(n: nat) -> Seq<u8>
    decreases n,
{
    if n == 0 {
        Seq::empty()
    } else {
        be_bytes(n / 256).push((n % 256) as u8)
    }
}

/// A byte string is minimal when it does not start with a zero byte.
pub open spec fn is_minimal(s: Seq<u8>) -> bool {
    s.len() == 0 || s[0] != 0
}

pub proof fn lemma_pow256_positive(k: nat)
    ensures
        pow256(k) > 0,
    decreases k,
{
    if k > 0 {
        lemma_pow256_positive((k - 1) as nat);
    }
}

pub proof fn lemma_pow256_monotonic(a: nat, b: nat)
    requires
        a <= b,
    ensures
        pow256(a) <= pow256(b),
    decreases b,
{
    lemma_pow256_positive(a);
    if a < b {
        lemma_pow256_monotonic(a, (b - 1) as nat);
    }
}

/// The value of a byte string is below 256 to the power of its length.
pub proof fn lemma_be_value_bound(s: Seq<u8>)
    ensures
        be_value(s) < pow256(s.len()),
    decreases s.len(),
{
    if s.len() > 0 {
        lemma_be_value_bound(s.drop_last());
    }
}

/// A string that starts with a non-zero byte is worth at least 256 to the
/// power of its length less one.
pub proof fn lemma_be_value_lower_bound(s: Seq<u8>)
    requires
        s.len() > 0,
        s[0] != 0,
    ensures
        be_value(s) >= pow256((s.len() - 1) as nat),
    decreases s.len(),
{
    if s.len() == 1 {
        assert(s.drop_last().len() == 0);
        assert(be_value(s.drop_last()) == 0);
    } else {
        assert(s.drop_last()[0] == s[0]);
        lemma_be_value_lower_bound(s.drop_last());
    }
}

/// A string is worth zero exactly when all its bytes are zero; a minimal
/// one, only when it is empty.
pub proof fn lemma_be_value_zero(s: Seq<u8>)
    requires
        is_minimal(s),
    ensures
        be_value(s) == 0 <==> s.len() == 0,
{
    if s.len() > 0 {
        lemma_be_value_lower_bound(s);
        lemma_pow256_positive((s.len() - 1) as nat);
    }
}

/// `be_bytes` writes the number that `be_value` reads.
pub proof fn lemma_be_value_of_bytes(n: nat)
    ensures
        be_value(be_bytes(n)) == n,
        is_minimal(be_bytes(n)),
        n > 0 ==> be_bytes(n).len() > 0,
    decreases n,
{
    if n > 0 {
        let q = n / 256;
        lemma_be_value_of_bytes(q);
        let s = be_bytes(n);
        assert(s.drop_last() =~= be_bytes(q));
        if q > 0 {
            assert(s[0] == be_bytes(q)[0]);
        }
    }
}

/// `be_value` reads a minimal string back into the string that `be_bytes`
/// writes: a number has one minimal string.
pub proof fn lemma_be_bytes_of_value(s: Seq<u8>)
    requires
        is_minimal(s),
    ensures
        be_bytes(be_value(s)) == s,
    decreases s.len(),
{
    if s.len() > 0 {
        let n = be_value(s);
        lemma_be_value_zero(s);
        let init = s.drop_last();
        if init.len() > 0 {
            assert(init[0] == s[0]);
        }
        lemma_be_bytes_of_value(init);
        assert(n / 256 == be_value(init));
        assert(n % 256 == s.last() as nat);
        assert(be_bytes(n) =~= s);
    }
}

/// The minimal string of a number below 256 to the power of `k` has at most
/// `k` bytes.
pub proof fn lemma_be_bytes_len(n: nat, k: nat)
    requires
        n < pow256(k),
    ensures
        be_bytes(n).len() <= k,
    decreases n,
{
    if n > 0 {
        assert(k > 0);
        lemma_be_bytes_len(n / 256, (k - 1) as nat);
    }
}

/// Zero bytes in front do not change the value.
pub proof fn lemma_be_value_skip_zero(s: Seq<u8>)
    requires
        s.len() > 0,
        s[0] == 0,
    ensures
        be_value(s) == be_value(s.skip(1)),
    decreases s.len(),
{
    if s.len() == 1 {
        assert(be_value(s.drop_last()) == 0);
        assert(s.skip(1).len() == 0);
    } else {
        lemma_be_value_skip_zero(s.drop_last());
        assert(s.drop_last().skip(1) =~= s.skip(1).drop_last());
        assert(s.skip(1).last() == s.last());
    }
}

/// The powers of 256 that bound the integers of this library.
pub proof fn lemma_pow256_8()
    ensures
        pow256(1) == 256,
        pow256(8) == 0x1_0000_0000_0000_0000,
{
    reveal_with_fuel(pow256, 9);
}

/// Reading one byte more multiplies by 256 and adds the byte.
pub proof fn lemma_be_value_step(s: Seq<u8>, start: int, i: int)
    requires
        0 <= start <= i < s.len(),
    ensures
        be_value(s.subrange(start, i + 1)) == be_value(s.subrange(start, i)) * 256 + s[i] as nat,
{
    assert(s.subrange(start, i + 1).drop_last() =~= s.subrange(start, i));
}

/// The minimal big-endian bytes of `n`.
pub fn minimal_be_bytes(n: u64) -> (v: Vec<u8>)
    ensures
        v@ == be_bytes(n as nat),
        v.len() <= 8,
    decreases n,
{
    proof {
        lemma_pow256_8();
        lemma_be_bytes_len(n as nat, 8);
    }
    if n == 0 {
        Vec::new()
    } else {
        let mut v = minimal_be_bytes(n / 256);
        v.push((n % 256) as u8);
        v
    }
}

/// The number that `bytes[start..end]` spell, for at most eight bytes.
pub fn read_be_u64(bytes: &[u8], start: usize, end: usize) -> (n: u64)
    requires
        start <= end <= bytes.len(),
        end - start <= 8,
    ensures
        n == be_value(bytes@.subrange(start as int, end as int)),
{
    let mut acc: u64 = 0;
    let mut i: usize = start;
    proof {
        lemma_pow256_8();
    }
    while i < end
        invariant
            start <= i <= end <= bytes.len(),
            end - start <= 8,
            acc == be_value(bytes@.subrange(start as int, i as int)),
        decreases end - i,
    {
        proof {
            lemma_be_value_step(bytes@, start as int, i as int);
            lemma_be_value_bound(bytes@.subrange(start as int, i as int + 1));
            lemma_pow256_monotonic((i + 1 - start) as nat, 8);
            lemma_pow256_8();
        }
        acc = acc * 256 + bytes[i] as u64;
        i = i + 1;
    }
    acc
}

} // verus!
