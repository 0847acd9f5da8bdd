//! Signatures and signed transactions.
//!
//! A signature is made over the Keccak-256 digest of the bytes that
//! [`Transaction::signing_payload`] gives. From the signature and the
//! digest the signer's public key is recovered, and the signer's address is
//! the last 20 bytes of the Keccak-256 digest of that key. A
//! [`SignedTransaction`] exists only together with the address that was
//! recovered for it.

use vstd::prelude::*;
use vstd::string::StringExecFns;
use crate::big_endian::{be_value, lemma_be_value_step};
use crate::crypto::{
    ecdsa_recover, keccak256, keccak256_digest, recover_public, spec_invalid_signature_text,
};
use crate::error::{spec_decoder_error_text, Error};
use crate::primitives::{lemma_spec_u256, spec_u256, Address, H256, U256};
use crate::rlp::DecoderError;
use crate::signature::{
    decode_v, encode_v, lemma_decode_encode_v, spec_decode_v, spec_encode_v, RecoveryInfo,
};
use crate::transaction::{
    decode, encode_signed, lemma_decode_of_encode, spec_decode, spec_encode, Transaction,
    TransactionView, UnverifiedTransaction, UnverifiedView,
};

verus! {

/// The order of the group of the curve secp256k1.
pub open spec fn spec_curve_order() -> nat {
    0xFFFFFFFFFFFFFFFFFFFFFFFFFFFFFFFEBAAEDCE6AF48A03BBFD25E8CD0364141nat
}

/// The order of the group of the curve secp256k1.
pub fn curve_order() -> (n: U256)
    ensures
        n@ == spec_curve_order(),
{
    let bytes: [u8; 32] = [
        0xff, 0xff, 0xff, 0xff, 0xff, 0xff, 0xff, 0xff, 0xff, 0xff, 0xff, 0xff, 0xff, 0xff, 0xff, 0xfe,
        0xba, 0xae, 0xdc, 0xe6, 0xaf, 0x48, 0xa0, 0x3b, 0xbf, 0xd2, 0x5e, 0x8c, 0xd0, 0x36, 0x41, 0x41,
    ];
    proof {
        let s = bytes@;
        assert(be_value(s.subrange(0, 0)) == 0);
        lemma_be_value_step(s, 0, 0);
        lemma_be_value_step(s, 0, 1);
        lemma_be_value_step(s, 0, 2);
        lemma_be_value_step(s, 0, 3);
        lemma_be_value_step(s, 0, 4);
        lemma_be_value_step(s, 0, 5);
        lemma_be_value_step(s, 0, 6);
        lemma_be_value_step(s, 0, 7);
        assert(be_value(s.subrange(0, 8)) == 0xffffffffffffffff);
        lemma_be_value_step(s, 0, 8);
        lemma_be_value_step(s, 0, 9);
        lemma_be_value_step(s, 0, 10);
        lemma_be_value_step(s, 0, 11);
        lemma_be_value_step(s, 0, 12);
        lemma_be_value_step(s, 0, 13);
        lemma_be_value_step(s, 0, 14);
        lemma_be_value_step(s, 0, 15);
        assert(be_value(s.subrange(0, 16)) == 0xfffffffffffffffffffffffffffffffe);
        lemma_be_value_step(s, 0, 16);
        lemma_be_value_step(s, 0, 17);
        lemma_be_value_step(s, 0, 18);
        lemma_be_value_step(s, 0, 19);
        lemma_be_value_step(s, 0, 20);
        lemma_be_value_step(s, 0, 21);
        lemma_be_value_step(s, 0, 22);
        lemma_be_value_step(s, 0, 23);
        assert(be_value(s.subrange(0, 24)) == 0xfffffffffffffffffffffffffffffffebaaedce6af48a03bnat);
        lemma_be_value_step(s, 0, 24);
        lemma_be_value_step(s, 0, 25);
        lemma_be_value_step(s, 0, 26);
        lemma_be_value_step(s, 0, 27);
        lemma_be_value_step(s, 0, 28);
        lemma_be_value_step(s, 0, 29);
        lemma_be_value_step(s, 0, 30);
        lemma_be_value_step(s, 0, 31);
        assert(s.subrange(0, 32) =~= s);
    }
    U256 { bytes }
}

/// The error for a signature that the library itself finds to be none,
/// in the words that the signature scheme uses for one.
fn invalid_signature() -> (res: Error)
    ensures
        res matches Error::InvalidSignature(text) && text@ == spec_invalid_signature_text(),
{
    Error::from_crypto(String::from_str("invalid EC signature"))
}

/// A signature: the two scalars and what the wire `v` stands for.
#[derive(Clone, Copy, Debug, PartialEq, Eq)]
pub struct Signature {
    pub r: U256,
    pub s: U256,
    pub recovery: RecoveryInfo,
}

impl Signature {
    /// The signature can be written on the wire.
    pub open spec fn wf(self) -> bool {
        self.recovery.wf()
    }

    /// The signature can be written on the wire and both scalars are
    /// above zero and below the order of the curve.
    pub open spec fn in_range(self) -> bool {
        &&& self.wf()
        &&& 0 < self.r@ < spec_curve_order()
        &&& 0 < self.s@ < spec_curve_order()
    }

    /// The chain that the signature is bound to, if any.
    pub fn chain_id(&self) -> (res: Option<u64>)
        ensures
            res == self.recovery.chain_id,
    {
        self.recovery.chain_id
    }

    /// The wire `v` of the signature.
    pub fn v(&self) -> (v: u64)
        requires
            self.wf(),
        ensures
            v == spec_encode_v(self.recovery),
            spec_decode_v(v) == Some(self.recovery),
    {
        encode_v(self.recovery)
    }

    /// The signature of the wire fields `v`, `r` and `s`. A `v` that is
    /// neither 27, 28 nor at least 35 is refused as an invalid signature.
    pub fn from_vrs(v: u64, r: U256, s: U256) -> (res: Result<Signature, Error>)
        ensures
            match spec_decode_v(v) {
                Some(recovery) => res == Ok::<Signature, Error>(Signature { r, s, recovery }),
                None => res matches Err(Error::InvalidSignature(text)) && text@
                    == spec_invalid_signature_text(),
            },
            res matches Ok(signature) ==> signature.wf(),
    {
        match decode_v(v) {
            Some(recovery) => Ok(Signature { r, s, recovery }),
            None => Err(invalid_signature()),
        }
    }
}

/// The address of the account that holds the public key: the last 20 of
/// the 32 bytes of the key's Keccak-256 digest.
pub open spec fn spec_public_to_address(public: Seq<u8>) -> Seq<u8> {
    keccak256_digest(public).subrange(12, 32)
}

/// The address that signed `digest`, or `None` where the signature is out
/// of range or no public key is recovered from it.
pub open spec fn spec_recover_sender(signature: Signature, digest: Seq<u8>) -> Option<Seq<u8>> {
    if !signature.in_range() {
        None
    } else {
        match ecdsa_recover(
            signature.r.bytes@,
            signature.s.bytes@,
            signature.recovery.recovery_bit,
            digest,
        ) {
            None => None,
            Some(public) => Some(spec_public_to_address(public)),
        }
    }
}

/// The digest that is signed for a transaction and a chain.
pub open spec fn spec_signing_digest(t: TransactionView, chain_id: Option<u64>) -> Seq<u8> {
    keccak256_digest(t.signing_payload(chain_id))
}

/// The address that signed the transaction `t` with `signature`, if any.
pub open spec fn spec_sender_of(t: TransactionView, signature: Signature) -> Option<Seq<u8>> {
    spec_recover_sender(signature, spec_signing_digest(t, signature.recovery.chain_id))
}

/// The address of the account that holds the uncompressed public key.
pub fn public_to_address(public: &[u8; 64]) -> (address: Address)
    ensures
        address@ == spec_public_to_address(public@),
{
    let digest = keccak256(public.as_slice());
    let mut bytes = [0u8; 20];
    let mut i: usize = 0;
    while i < 20
        invariant
            i <= 20,
            forall|k: int| 0 <= k < i ==> bytes@[k] == digest@[12 + k],
        decreases 20 - i,
    {
        bytes[i] = digest[12 + i];
        i = i + 1;
    }
    assert(bytes@ =~= digest@.subrange(12, 32));
    Address { bytes }
}

/// The digest that is signed: the Keccak-256 digest of the transaction's
/// signing payload. With a chain identifier the payload holds it, so that
/// a signature for one chain is made over other bytes than one for
/// another.
pub fn signing_digest(transaction: &Transaction, chain_id: Option<u64>) -> (digest: H256)
    ensures
        digest@ == spec_signing_digest(transaction@, chain_id),
        transaction@.signable(chain_id),
{
    let payload = transaction.signing_payload(chain_id);
    H256 { bytes: keccak256(payload.as_slice()) }
}

/// What becomes of the outcome of a recovery: a recovered key gives its
/// address, a failure gives `InvalidSignature` with the failure's text.
pub fn sender_of_recovery(outcome: Result<[u8; 64], String>) -> (res: Result<Address, Error>)
    ensures
        match outcome {
            Ok(public) => res matches Ok(address) && address@ == spec_public_to_address(public@),
            Err(text) => res == Err::<Address, Error>(Error::InvalidSignature(text)),
        },
{
    match outcome {
        Ok(public) => Ok(public_to_address(&public)),
        Err(text) => Err(Error::from_crypto(text)),
    }
}

/// Recovers the address that signed `digest`. Fails with
/// `InvalidSignature` where the signature cannot be written on the wire,
/// where `r` or `s` is zero or not below the order of the curve, and where
/// no public key is recovered; a high `s` is accepted. The result depends
/// on the two arguments alone.
pub fn recover_sender(signature: &Signature, digest: &H256) -> (res: Result<Address, Error>)
    ensures
        match spec_recover_sender(*signature, digest@) {
            Some(sender) => res matches Ok(address) && address@ == sender,
            None => res matches Err(Error::InvalidSignature(text)) && text@
                == spec_invalid_signature_text(),
        },
{
    let order = curve_order();
    let bit = signature.recovery.recovery_bit;
    let writable = bit <= 1 && match signature.recovery.chain_id {
        None => true,
        Some(c) => c <= (u64::MAX - 35 - bit as u64) / 2,
    };
    if !writable || signature.r.is_zero() || signature.s.is_zero() || !signature.r.less_than(&order)
        || !signature.s.less_than(&order) {
        return Err(invalid_signature());
    }
    sender_of_recovery(recover_public(&signature.r.bytes, &signature.s.bytes, bit, &digest.bytes))
}

/// The signature that the wire fields of `t` spell, if `v` is one.
pub open spec fn spec_signature_of(t: UnverifiedView) -> Option<Signature> {
    match spec_decode_v(t.v as u64) {
        None => None,
        Some(recovery) => Some(Signature { r: spec_u256(t.r), s: spec_u256(t.s), recovery }),
    }
}

/// The nine wire fields of a transaction and its signature.
pub open spec fn spec_wire_of(t: TransactionView, signature: Signature) -> UnverifiedView {
    UnverifiedView {
        unsigned: t,
        v: spec_encode_v(signature.recovery) as nat,
        r: signature.r@,
        s: signature.s@,
    }
}

/// Writing a transaction and its signature on the wire and reading the
/// bytes again gives the same transaction and the same signature, so that
/// the same sender is recovered on both sides of the wire.
pub proof fn lemma_signature_survives_wire(t: TransactionView, signature: Signature)
    requires
        signature.wf(),
        spec_wire_of(t, signature).wf(),
    ensures
        spec_decode(spec_encode(spec_wire_of(t, signature))) == Ok::<UnverifiedView, DecoderError>(
            spec_wire_of(t, signature),
        ),
        spec_signature_of(spec_wire_of(t, signature)) == Some(signature),
{
    lemma_decode_of_encode(spec_wire_of(t, signature));
    lemma_decode_encode_v(signature.recovery);
    lemma_spec_u256(signature.r);
    lemma_spec_u256(signature.s);
}

/// A transaction together with its signature and the address that the
/// signature recovers to. There is no value of this type whose signature
/// does not recover to its sender.
#[derive(Debug, PartialEq, Eq)]
pub struct SignedTransaction {
    transaction: Transaction,
    signature: Signature,
    sender: Address,
}

impl Clone for SignedTransaction {
    fn clone(&self) -> (res: Self)
        ensures
            res.spec_transaction()@ == self.spec_transaction()@,
            res.spec_signature() == self.spec_signature(),
            res.spec_sender() == self.spec_sender(),
    {
        proof {
            use_type_invariant(self);
        }
        SignedTransaction {
            transaction: self.transaction.clone(),
            signature: self.signature,
            sender: self.sender,
        }
    }
}

impl SignedTransaction {
    #[verifier::type_invariant]
    spec fn recovered(self) -> bool {
        spec_sender_of(self.transaction@, self.signature) == Some(self.sender@)
    }

    /// The transaction that was signed.
    pub closed spec fn spec_transaction(&self) -> Transaction {
        self.transaction
    }

    /// The signature.
    pub closed spec fn spec_signature(&self) -> Signature {
        self.signature
    }

    /// The address that signed.
    pub closed spec fn spec_sender(&self) -> Address {
        self.sender
    }

    /// The nine fields as they stand on the wire.
    pub open spec fn spec_wire(&self) -> UnverifiedView {
        spec_wire_of(self.spec_transaction()@, self.spec_signature())
    }

    /// Checks the signature of a transaction: computes the digest for the
    /// signature's chain, recovers the signer, and returns the signed
    /// transaction with its sender. Fails with `InvalidSignature` exactly
    /// where no sender is recovered.
    pub fn new(transaction: Transaction, signature: Signature) -> (res: Result<
        SignedTransaction,
        Error,
    >)
        ensures
            match spec_sender_of(transaction@, signature) {
                Some(sender) => res matches Ok(signed) && signed.spec_transaction() == transaction
                    && signed.spec_signature() == signature && signed.spec_sender()@ == sender,
                None => res matches Err(Error::InvalidSignature(text)) && text@
                    == spec_invalid_signature_text(),
            },
    {
        let digest = signing_digest(&transaction, signature.recovery.chain_id);
        match recover_sender(&signature, &digest) {
            Ok(sender) => Ok(SignedTransaction { transaction, signature, sender }),
            Err(e) => Err(e),
        }
    }

    /// Checks the signature of the fields of a decoded transaction.
    pub fn from_unverified(fields: UnverifiedTransaction) -> (res: Result<SignedTransaction, Error>)
        ensures
            match spec_signature_of(fields@) {
                Some(signature) => match spec_sender_of(fields@.unsigned, signature) {
                    Some(sender) => res matches Ok(signed) && signed.spec_transaction()
                        == fields.unsigned && signed.spec_signature() == signature
                        && signed.spec_sender()@ == sender && signed.spec_wire() == fields@,
                    None => res matches Err(Error::InvalidSignature(text)) && text@
                        == spec_invalid_signature_text(),
                },
                None => res matches Err(Error::InvalidSignature(text)) && text@
                    == spec_invalid_signature_text(),
            },
    {
        proof {
            lemma_spec_u256(fields.r);
            lemma_spec_u256(fields.s);
        }
        let signature = Signature::from_vrs(fields.v, fields.r, fields.s)?;
        SignedTransaction::new(fields.unsigned, signature)
    }

    /// Decodes a signed transaction from its wire encoding and checks its
    /// signature. Bytes that are not the canonical encoding of nine fields
    /// give `InvalidRlp` with the decoder's word; a `v` that is no
    /// signature, or a signature from which no sender is recovered, gives
    /// `InvalidSignature`; everything else gives the signed transaction.
    pub fn decode(bytes: &[u8]) -> (res: Result<SignedTransaction, Error>)
        ensures
            match spec_decode(bytes@) {
                Err(e) => res matches Err(Error::InvalidRlp(text)) && text@
                    == spec_decoder_error_text(e),
                Ok(fields) => match spec_signature_of(fields) {
                    Some(signature) => match spec_sender_of(fields.unsigned, signature) {
                        Some(sender) => res matches Ok(signed) && signed.spec_transaction()@
                            == fields.unsigned && signed.spec_signature() == signature
                            && signed.spec_sender()@ == sender && signed.spec_wire() == fields,
                        None => res matches Err(Error::InvalidSignature(text)) && text@
                            == spec_invalid_signature_text(),
                    },
                    None => res matches Err(Error::InvalidSignature(text)) && text@
                        == spec_invalid_signature_text(),
                },
            },
    {
        match decode(bytes) {
            Err(e) => Err(Error::from_decoder(e)),
            Ok(fields) => SignedTransaction::from_unverified(fields),
        }
    }

    /// The address that signed the transaction: the one that the signature
    /// recovers to.
    pub fn sender(&self) -> (res: Address)
        ensures
            res == self.spec_sender(),
            spec_sender_of(self.spec_transaction()@, self.spec_signature()) == Some(res@),
    {
        proof {
            use_type_invariant(self);
        }
        self.sender
    }

    /// The chain that the signature is bound to, if any.
    pub fn chain_id(&self) -> (res: Option<u64>)
        ensures
            res == self.spec_signature().recovery.chain_id,
    {
        self.signature.recovery.chain_id
    }

    /// The transaction that was signed.
    pub fn transaction(&self) -> (res: &Transaction)
        ensures
            *res == self.spec_transaction(),
    {
        &self.transaction
    }

    /// The signature.
    pub fn signature(&self) -> (res: Signature)
        ensures
            res == self.spec_signature(),
            res.in_range(),
    {
        proof {
            use_type_invariant(self);
        }
        self.signature
    }

    /// The wire encoding of the signed transaction.
    pub fn encode(&self) -> (out: Vec<u8>)
        ensures
            out@ == spec_encode(self.spec_wire()),
            self.spec_wire().wf(),
    {
        proof {
            use_type_invariant(self);
        }
        encode_signed(&self.transaction, self.signature.v(), &self.signature.r, &self.signature.s)
    }
}

} // verus!
