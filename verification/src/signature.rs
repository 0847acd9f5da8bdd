//! The `v` component of a transaction signature.
//!
//! On the wire `v` is one integer that carries two things: which of the two
//! candidate public keys signed (the recovery bit) and, for replay-protected
//! transactions, the chain the signature is bound to. Inside the library the
//! two are kept apart as a [`RecoveryInfo`].

use vstd::prelude::*;

verus! {

/// Largest chain identifier whose wire `v` fits in 64 bits with either
/// recovery bit.
pub const MAX_CHAIN_ID: u64 = 9223372036854775789;

/// What the wire integer `v` stands for.
#[derive(Clone, Copy, Debug, PartialEq, Eq, Structural)]
pub struct RecoveryInfo {
    /// Selects one of the two candidate public keys: 0 or 1.
    pub recovery_bit: u8,
    /// The chain the signature is bound to; `None` for a legacy signature.
    pub chain_id: Option<u64>,
}

impl RecoveryInfo {
    /// The recovery bit is a bit and the wire `v` fits in 64 bits.
    pub open spec fn wf(self) -> bool {
        &&& self.recovery_bit <= 1
        &&& self.chain_id matches Some(c) ==> c * 2 + 35 + self.recovery_bit <= u64::MAX
    }
}

/// The meaning of a wire `v`: 27 and 28 are legacy signatures, everything
/// from 35 upwards holds `chain_id * 2 + 35 + recovery_bit`, and no other
/// value is a signature.
pub open spec fn spec_decode_v(v: u64) -> Option<RecoveryInfo> {
    if v == 27 || v == 28 {
        Some(RecoveryInfo { recovery_bit: (v - 27) as u8, chain_id: None })
    } else if v >= 35 {
        Some(RecoveryInfo { recovery_bit: ((v - 35) % 2) as u8, chain_id: Some(((v - 35) / 2) as u64) })
    } else {
        None
    }
}

/// The wire `v` of a recovery bit and an optional chain identifier.
pub open spec fn spec_encode_v(info: RecoveryInfo) -> int {
    match info.chain_id {
        None => 27 + info.recovery_bit,
        Some(c) => c * 2 + 35 + info.recovery_bit,
    }
}

/// Splits a wire `v` into recovery bit and chain identifier, or returns
/// `None` where `v` is neither 27, 28 nor at least 35.
pub fn decode_v(v: u64) -> (res: Option<RecoveryInfo>)
    ensures
        res == spec_decode_v(v),
        res matches Some(info) ==> info.wf() && spec_encode_v(info) == v,
{
    if v == 27 || v == 28 {
        Some(RecoveryInfo { recovery_bit: (v - 27) as u8, chain_id: None })
    } else if v >= 35 {
        Some(RecoveryInfo { recovery_bit: ((v - 35) % 2) as u8, chain_id: Some((v - 35) / 2) })
    } else {
        None
    }
}

/// Joins recovery bit and chain identifier into the wire `v`.
pub fn encode_v(info: RecoveryInfo) -> (v: u64)
    requires
        info.wf(),
    ensures
        v == spec_encode_v(info),
        spec_decode_v(v) == Some(info),
{
    match info.chain_id {
        None => 27 + info.recovery_bit as u64,
        Some(c) => c * 2 + 35 + info.recovery_bit as u64,
    }
}

/// Decoding an encoded `v` gives back the recovery bit and the chain
/// identifier, for every bit and every chain identifier that fits.
pub proof fn lemma_decode_encode_v(info: RecoveryInfo)
    requires
        info.wf(),
    ensures
        0 <= spec_encode_v(info) <= u64::MAX,
        spec_decode_v(spec_encode_v(info) as u64) == Some(info),
{
}

/// Encoding a decoded `v` reproduces the wire integer exactly.
pub proof fn lemma_encode_decode_v(v: u64)
    requires
        spec_decode_v(v) is Some,
    ensures
        spec_decode_v(v)->0.wf(),
        spec_encode_v(spec_decode_v(v)->0) == v,
{
}

/// Every chain identifier up to [`MAX_CHAIN_ID`], and so every one below
/// 2^31, can be written with either recovery bit.
pub proof fn lemma_small_chain_id_wf(recovery_bit: u8, chain_id: Option<u64>)
    requires
        recovery_bit <= 1,
        chain_id matches Some(c) ==> c <= MAX_CHAIN_ID,
    ensures
        (RecoveryInfo { recovery_bit, chain_id }).wf(),
        0x8000_0000 <= MAX_CHAIN_ID,
{
}

/// Two recovery infos with the same wire `v` are the same.
pub proof fn lemma_encode_v_injective(a: RecoveryInfo, b: RecoveryInfo)
    requires
        a.wf(),
        b.wf(),
        spec_encode_v(a) == spec_encode_v(b),
    ensures
        a == b,
{
}

} // verus!
