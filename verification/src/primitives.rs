//! Fixed-size values of a transaction: 256-bit integers, 256-bit hashes
//! and 160-bit addresses, each held as big-endian bytes.

use vstd::prelude::*;
use crate::big_endian::{
    be_bytes, be_value, is_minimal, lemma_be_bytes_of_value, lemma_be_value_lower_bound,
    lemma_be_value_of_bytes, lemma_be_value_skip_zero, lemma_be_value_step, lemma_pow256_positive,
    minimal_be_bytes,
};
use crate::text::spec_decimal;

verus! {

/// An unsigned integer of 256 bits.
#[derive(Clone, Copy, Debug, PartialEq, Eq, Hash)]
pub struct U256 {
    /// The integer, most significant byte first.
    pub bytes: [u8; 32],
}

/// A hash of 256 bits.
#[derive(Clone, Copy, Debug, PartialEq, Eq, Hash)]
pub struct H256 {
    pub bytes: [u8; 32],
}

/// The address of an account: 160 bits.
#[derive(Clone, Copy, Debug, PartialEq, Eq, Hash)]
pub struct Address {
    pub bytes: [u8; 20],
}

impl View for U256 {
    type V = nat;

    /// The integer that the bytes spell.
    open spec fn view(&self) -> nat {
        be_value(self.bytes@)
    }
}

impl View for H256 {
    type V = Seq<u8>;

    open spec fn view(&self) -> Seq<u8> {
        self.bytes@
    }
}

impl View for Address {
    type V = Seq<u8>;

    open spec fn view(&self) -> Seq<u8> {
        self.bytes@
    }
}

/// Calls the `Display` of `ethereum_types::U256` on the integer that
/// `from_big_endian` makes of the bytes: its decimal digits, most
/// significant first, and a single zero for zero.
#[verifier::external_body]
fn u256_decimal(bytes: &[u8; 32]) -> (res: String)
    ensures
        res@ == spec_decimal(be_value(bytes@)),
{
    format!("{}", ethereum_types::U256::from_big_endian(bytes))
}

/// Zero bytes in front, however many, do not change the value.
pub proof fn lemma_be_value_skip_zeros(s: Seq<u8>, k: int)
    requires
        0 <= k <= s.len(),
        forall|i: int| 0 <= i < k ==> s[i] == 0,
    ensures
        be_value(s) == be_value(s.skip(k)),
    decreases k,
{
    if k == 0 {
        assert(s.skip(0) =~= s);
    } else {
        lemma_be_value_skip_zero(s);
        let t = s.skip(1);
        assert forall|i: int| 0 <= i < k - 1 implies t[i] == 0 by {
            assert(t[i] == s[i + 1]);
        }
        lemma_be_value_skip_zeros(t, k - 1);
        assert(t.skip(k - 1) =~= s.skip(k));
    }
}

/// Two byte strings of one length that spell the same number are the same.
pub proof fn lemma_be_value_injective(a: Seq<u8>, b: Seq<u8>)
    requires
        a.len() == b.len(),
        be_value(a) == be_value(b),
    ensures
        a == b,
    decreases a.len(),
{
    if a.len() > 0 {
        lemma_be_value_injective(a.drop_last(), b.drop_last());
        assert(a =~= a.drop_last().push(a.last()));
        assert(b =~= b.drop_last().push(b.last()));
    } else {
        assert(a =~= b);
    }
}

/// Two integers of the same value are the same integer.
pub proof fn lemma_u256_view_injective(a: U256, b: U256)
    requires
        a@ == b@,
    ensures
        a == b,
{
    lemma_be_value_injective(a.bytes@, b.bytes@);
    assert(a.bytes =~= b.bytes);
}

/// The 256-bit integer of the value `n`, for `n` below 2 to the power of
/// 256.
pub open spec fn spec_u256(n: nat) -> U256 {
    choose|x: U256| x@ == n
}

/// `spec_u256` of a 256-bit integer's value is that integer.
pub proof fn lemma_spec_u256(x: U256)
    ensures
        spec_u256(x@) == x,
{
    lemma_u256_view_injective(spec_u256(x@), x);
}

impl U256 {
    /// The integer zero.
    pub fn zero() -> (res: U256)
        ensures
            res@ == 0,
    {
        let res = U256 { bytes: [0u8; 32] };
        proof {
            lemma_be_value_skip_zeros(res.bytes@, 32);
            assert(res.bytes@.skip(32).len() == 0);
        }
        res
    }

    /// The integer whose minimal big-endian bytes are `bytes[start..end]`,
    /// where these are at most 32.
    pub fn from_be_slice(bytes: &[u8], start: usize, end: usize) -> (res: U256)
        requires
            start <= end <= bytes.len(),
            end - start <= 32,
        ensures
            res@ == be_value(bytes@.subrange(start as int, end as int)),
    {
        let len = end - start;
        let pad = 32 - len;
        let mut arr = [0u8; 32];
        let mut j: usize = 0;
        while j < len
            invariant
                j <= len,
                len == end - start,
                pad == 32 - len,
                start <= end <= bytes.len(),
                forall|i: int| 0 <= i < pad ==> arr@[i] == 0,
                forall|i: int| pad <= i < pad + j ==> arr@[i] == bytes@[start + i - pad],
            decreases len - j,
        {
            arr[pad + j] = bytes[start + j];
            j = j + 1;
        }
        proof {
            lemma_be_value_skip_zeros(arr@, pad as int);
            assert(arr@.skip(pad as int) =~= bytes@.subrange(start as int, end as int));
        }
        U256 { bytes: arr }
    }

    /// The integer `n`.
    pub fn from_u64(n: u64) -> (res: U256)
        ensures
            res@ == n,
    {
        let b = minimal_be_bytes(n);
        let res = U256::from_be_slice(b.as_slice(), 0, b.len());
        proof {
            assert(b@.subrange(0, b.len() as int) =~= b@);
            lemma_be_value_of_bytes(n as nat);
        }
        res
    }

    /// Whether the integer is zero.
    pub fn is_zero(&self) -> (res: bool)
        ensures
            res == (self@ == 0),
    {
        let mut i: usize = 0;
        while i < 32
            invariant
                i <= 32,
                forall|k: int| 0 <= k < i ==> self.bytes@[k] == 0,
            decreases 32 - i,
        {
            if self.bytes[i] != 0 {
                proof {
                    let t = self.bytes@.skip(i as int);
                    lemma_be_value_skip_zeros(self.bytes@, i as int);
                    assert(t[0] == self.bytes@[i as int]);
                    lemma_be_value_lower_bound(t);
                    lemma_pow256_positive((t.len() - 1) as nat);
                }
                return false;
            }
            i = i + 1;
        }
        proof {
            lemma_be_value_skip_zeros(self.bytes@, 32);
            assert(self.bytes@.skip(32).len() == 0);
        }
        true
    }

    /// The minimal big-endian bytes of the integer: none for zero.
    pub fn to_minimal_bytes(&self) -> (out: Vec<u8>)
        ensures
            out@ == be_bytes(self@),
            out.len() <= 32,
    {
        let mut first: usize = 0;
        while first < 32 && self.bytes[first] == 0
            invariant
                first <= 32,
                forall|k: int| 0 <= k < first ==> self.bytes@[k] == 0,
            decreases 32 - first,
        {
            first = first + 1;
        }
        let mut out: Vec<u8> = Vec::new();
        let mut i: usize = first;
        while i < 32
            invariant
                first <= i <= 32,
                out@ == self.bytes@.subrange(first as int, i as int),
            decreases 32 - i,
        {
            out.push(self.bytes[i]);
            assert(out@ =~= self.bytes@.subrange(first as int, i as int + 1));
            i = i + 1;
        }
        proof {
            lemma_be_value_skip_zeros(self.bytes@, first as int);
            assert(out@ =~= self.bytes@.skip(first as int));
            assert(is_minimal(out@));
            lemma_be_bytes_of_value(out@);
        }
        out
    }

    /// The integer in decimal.
    pub fn to_decimal(&self) -> (res: String)
        ensures
            res@ == spec_decimal(self@),
    {
        u256_decimal(&self.bytes)
    }

    /// Whether the integer is smaller than `other`.
    pub fn less_than(&self, other: &U256) -> (res: bool)
        ensures
            res == (self@ < other@),
    {
        let mut less = false;
        let mut equal = true;
        let mut i: usize = 0;
        while i < 32
            invariant
                i <= 32,
                less == (be_value(self.bytes@.subrange(0, i as int)) < be_value(
                    other.bytes@.subrange(0, i as int),
                )),
                equal == (be_value(self.bytes@.subrange(0, i as int)) == be_value(
                    other.bytes@.subrange(0, i as int),
                )),
            decreases 32 - i,
        {
            proof {
                lemma_be_value_step(self.bytes@, 0, i as int);
                lemma_be_value_step(other.bytes@, 0, i as int);
            }
            let a = self.bytes[i];
            let b = other.bytes[i];
            less = less || (equal && a < b);
            equal = equal && a == b;
            i = i + 1;
        }
        proof {
            assert(self.bytes@.subrange(0, 32) =~= self.bytes@);
            assert(other.bytes@.subrange(0, 32) =~= other.bytes@);
        }
        less
    }
}

} // verus!
