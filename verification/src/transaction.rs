//! Transactions and their wire format.
//!
//! On the wire a signed transaction is a list of nine byte strings: nonce,
//! gas price, gas limit, recipient (empty for a creation), value, data, and
//! the signature's `v`, `r` and `s`. Integers are written as their minimal
//! big-endian bytes. What is signed is the list of the first six, followed
//! by the chain identifier and two zeros where the signature is bound to a
//! chain.

use vstd::prelude::*;
use vstd::slice::{slice_subrange, slice_to_vec};
use crate::big_endian::{
    be_bytes, be_value, is_minimal, lemma_be_bytes_len, lemma_be_bytes_of_value,
    lemma_be_value_bound, lemma_be_value_of_bytes, lemma_pow256_8, lemma_pow256_monotonic,
    pow256, read_be_u64,
};
use crate::codec::{
    items_fit, lemma_encode_items_push, lemma_encoding_of_split,
    lemma_split_of_encoding, spec_encode_items, spec_split_items, split_items, RawItem,
};
use crate::primitives::{Address, U256};
use crate::rlp::{
    append_bytes, append_u64, decode_frame, encode_list, fits_header, lemma_encoding_of_frame,
    lemma_frame_of_encoding, payload_of, spec_encode_bytes, spec_encode_item, spec_encode_list,
    spec_encode_uint, spec_frame, DecoderError, Item,
};

verus! {

/// What a transaction does.
#[derive(Clone, Copy, Debug, PartialEq, Eq)]
pub enum Action {
    /// Creates a contract.
    Create,
    /// Calls the account at the address.
    Call(Address),
}

/// A transaction without its signature.
#[derive(Debug, PartialEq, Eq)]
pub struct Transaction {
    pub nonce: U256,
    pub gas_price: U256,
    pub gas_limit: U256,
    pub action: Action,
    pub value: U256,
    pub data: Vec<u8>,
}

/// The nine fields of a signed transaction as they stand on the wire,
/// before anything is known of the signature.
#[derive(Debug, PartialEq, Eq)]
pub struct UnverifiedTransaction {
    pub unsigned: Transaction,
    pub v: u64,
    pub r: U256,
    pub s: U256,
}

/// A transaction as a mathematical value. The recipient is `None` for a
/// creation.
pub struct TransactionView {
    pub nonce: nat,
    pub gas_price: nat,
    pub gas_limit: nat,
    pub recipient: Option<Seq<u8>>,
    pub value: nat,
    pub data: Seq<u8>,
}

/// The nine wire fields as a mathematical value.
pub struct UnverifiedView {
    pub unsigned: TransactionView,
    pub v: nat,
    pub r: nat,
    pub s: nat,
}

impl View for Action {
    type V = Option<Seq<u8>>;

    open spec fn view(&self) -> Option<Seq<u8>> {
        match *self {
            Action::Create => None,
            Action::Call(a) => Some(a@),
        }
    }
}

impl View for Transaction {
    type V = TransactionView;

    open spec fn view(&self) -> TransactionView {
        TransactionView {
            nonce: self.nonce@,
            gas_price: self.gas_price@,
            gas_limit: self.gas_limit@,
            recipient: self.action@,
            value: self.value@,
            data: self.data@,
        }
    }
}

impl View for UnverifiedTransaction {
    type V = UnverifiedView;

    open spec fn view(&self) -> UnverifiedView {
        UnverifiedView { unsigned: self.unsigned@, v: self.v as nat, r: self.r@, s: self.s@ }
    }
}

impl Clone for Transaction {
    fn clone(&self) -> (res: Self)
        ensures
            res@ == self@,
    {
        Transaction {
            nonce: self.nonce,
            gas_price: self.gas_price,
            gas_limit: self.gas_limit,
            action: self.action,
            value: self.value,
            data: slice_to_vec(self.data.as_slice()),
        }
    }
}

impl Clone for UnverifiedTransaction {
    fn clone(&self) -> (res: Self)
        ensures
            res@ == self@,
    {
        UnverifiedTransaction { unsigned: self.unsigned.clone(), v: self.v, r: self.r, s: self.s }
    }
}

/// The item of an integer.
pub open spec fn uint_item(n: nat) -> RawItem {
    RawItem { is_list: false, payload: be_bytes(n) }
}

/// The item of a byte string.
pub open spec fn bytes_item(b: Seq<u8>) -> RawItem {
    RawItem { is_list: false, payload: b }
}

/// The item of a recipient: empty for a creation.
pub open spec fn recipient_item(r: Option<Seq<u8>>) -> RawItem {
    match r {
        None => bytes_item(Seq::empty()),
        Some(a) => bytes_item(a),
    }
}

impl TransactionView {
    /// Integers have 256 bits, a recipient has 20 bytes, and the length of
    /// the data fits in 64 bits.
    pub open spec fn wf(self) -> bool {
        &&& self.nonce < pow256(32)
        &&& self.gas_price < pow256(32)
        &&& self.gas_limit < pow256(32)
        &&& self.value < pow256(32)
        &&& self.recipient matches Some(a) ==> a.len() == 20
        &&& fits_header(self.data.len())
    }

    /// The six items of the transaction.
    pub open spec fn items(self) -> Seq<RawItem> {
        seq![
            uint_item(self.nonce),
            uint_item(self.gas_price),
            uint_item(self.gas_limit),
            recipient_item(self.recipient),
            uint_item(self.value),
            bytes_item(self.data),
        ]
    }

    /// The items that are signed: the six of the transaction, and for a
    /// signature bound to a chain the chain identifier and two zeros.
    pub open spec fn signing_items(self, chain_id: Option<u64>) -> Seq<RawItem> {
        match chain_id {
            None => self.items(),
            Some(c) => self.items() + seq![uint_item(c as nat), uint_item(0), uint_item(0)],
        }
    }

    /// The bytes that are hashed and signed.
    pub open spec fn signing_payload(self, chain_id: Option<u64>) -> Seq<u8> {
        spec_encode_list(spec_encode_items(self.signing_items(chain_id)))
    }

    /// The transaction is well-formed and what is signed is short enough
    /// to be written as one list.
    pub open spec fn signable(self, chain_id: Option<u64>) -> bool {
        &&& self.wf()
        &&& fits_header(spec_encode_items(self.signing_items(chain_id)).len())
    }
}

impl UnverifiedView {
    /// The nine items of the signed transaction.
    pub open spec fn items(self) -> Seq<RawItem> {
        self.unsigned.items() + seq![uint_item(self.v), uint_item(self.r), uint_item(self.s)]
    }

    /// The transaction is well-formed, `v` has 64 bits, `r` and `s` have
    /// 256, and the nine items together are short enough for one list.
    pub open spec fn wf(self) -> bool {
        &&& self.unsigned.wf()
        &&& self.v < pow256(8)
        &&& self.r < pow256(32)
        &&& self.s < pow256(32)
        &&& fits_header(spec_encode_items(self.items()).len())
    }
}

/// The wire encoding of a signed transaction.
pub open spec fn spec_encode(t: UnverifiedView) -> Seq<u8> {
    spec_encode_list(spec_encode_items(t.items()))
}

/// Reads an item as an integer of at most `max_len` bytes.
pub open spec fn spec_read_uint(item: RawItem, max_len: nat) -> Result<nat, DecoderError> {
    if item.is_list {
        Err(DecoderError::RlpExpectedToBeData)
    } else if item.payload.len() > max_len {
        Err(DecoderError::RlpIsTooBig)
    } else if !is_minimal(item.payload) {
        Err(DecoderError::RlpInvalidIndirection)
    } else {
        Ok(be_value(item.payload))
    }
}

/// Reads an item as a recipient: empty, or an address of 20 bytes.
pub open spec fn spec_read_recipient(item: RawItem) -> Result<Option<Seq<u8>>, DecoderError> {
    if item.is_list {
        Err(DecoderError::RlpExpectedToBeData)
    } else if item.payload.len() == 0 {
        Ok(None)
    } else if item.payload.len() < 20 {
        Err(DecoderError::RlpIsTooShort)
    } else if item.payload.len() > 20 {
        Err(DecoderError::RlpIsTooBig)
    } else {
        Ok(Some(item.payload))
    }
}

/// Reads an item as a byte string.
pub open spec fn spec_read_bytes(item: RawItem) -> Result<Seq<u8>, DecoderError> {
    if item.is_list {
        Err(DecoderError::RlpExpectedToBeData)
    } else {
        Ok(item.payload)
    }
}

/// Reads nine items as the fields of a signed transaction. The first field
/// that cannot be read gives the error.
pub open spec fn spec_read_fields(items: Seq<RawItem>) -> Result<UnverifiedView, DecoderError> {
    let nonce = spec_read_uint(items[0], 32);
    let gas_price = spec_read_uint(items[1], 32);
    let gas_limit = spec_read_uint(items[2], 32);
    let recipient = spec_read_recipient(items[3]);
    let value = spec_read_uint(items[4], 32);
    let data = spec_read_bytes(items[5]);
    let v = spec_read_uint(items[6], 8);
    let r = spec_read_uint(items[7], 32);
    let s = spec_read_uint(items[8], 32);
    if nonce is Err {
        Err(nonce->Err_0)
    } else if gas_price is Err {
        Err(gas_price->Err_0)
    } else if gas_limit is Err {
        Err(gas_limit->Err_0)
    } else if recipient is Err {
        Err(recipient->Err_0)
    } else if value is Err {
        Err(value->Err_0)
    } else if data is Err {
        Err(data->Err_0)
    } else if v is Err {
        Err(v->Err_0)
    } else if r is Err {
        Err(r->Err_0)
    } else if s is Err {
        Err(s->Err_0)
    } else {
        Ok(
            UnverifiedView {
                unsigned: TransactionView {
                    nonce: nonce->Ok_0,
                    gas_price: gas_price->Ok_0,
                    gas_limit: gas_limit->Ok_0,
                    recipient: recipient->Ok_0,
                    value: value->Ok_0,
                    data: data->Ok_0,
                },
                v: v->Ok_0,
                r: r->Ok_0,
                s: s->Ok_0,
            },
        )
    }
}

/// What a byte string decodes to: the fields of the signed transaction of
/// which it is the encoding, or the reason why it is the encoding of none.
/// The whole input must be one list of exactly nine byte strings.
pub open spec fn spec_decode(s: Seq<u8>) -> Result<UnverifiedView, DecoderError> {
    match spec_frame(s) {
        Err(e) => Err(e),
        Ok(f) => if !f.is_list {
            Err(DecoderError::RlpExpectedToBeList)
        } else if f.total() < s.len() {
            Err(DecoderError::RlpIsTooBig)
        } else {
            match spec_split_items(payload_of(s, f), 9) {
                Err(e) => Err(e),
                Ok(items) => spec_read_fields(items),
            }
        },
    }
}

/// An integer below 256 to the power of `max_len` is read back from its
/// item.
pub proof fn lemma_read_uint_of_item(n: nat, max_len: nat)
    requires
        n < pow256(max_len),
    ensures
        spec_read_uint(uint_item(n), max_len) == Ok::<nat, DecoderError>(n),
        uint_item(n).payload.len() <= max_len,
{
    lemma_be_bytes_len(n, max_len);
    lemma_be_value_of_bytes(n);
}

/// An item that reads as an integer is the item of that integer.
pub proof fn lemma_item_of_read_uint(item: RawItem, max_len: nat)
    requires
        spec_read_uint(item, max_len) is Ok,
    ensures
        item == uint_item(spec_read_uint(item, max_len)->Ok_0),
        spec_read_uint(item, max_len)->Ok_0 < pow256(max_len),
{
    lemma_be_bytes_of_value(item.payload);
    lemma_be_value_bound(item.payload);
    lemma_pow256_monotonic(item.payload.len(), max_len);
}

/// The payloads of the nine items of a well-formed transaction fit.
pub proof fn lemma_items_fit(t: UnverifiedView)
    requires
        t.wf(),
    ensures
        items_fit(t.items()),
        t.items().len() == 9,
{
    lemma_pow256_8();
    let u = t.unsigned;
    lemma_be_bytes_len(u.nonce, 32);
    lemma_be_bytes_len(u.gas_price, 32);
    lemma_be_bytes_len(u.gas_limit, 32);
    lemma_be_bytes_len(u.value, 32);
    lemma_be_bytes_len(t.v, 8);
    lemma_be_bytes_len(t.r, 32);
    lemma_be_bytes_len(t.s, 32);
}

/// Decoding the encoding of a well-formed signed transaction gives the
/// transaction back.
pub proof fn lemma_decode_of_encode(t: UnverifiedView)
    requires
        t.wf(),
    ensures
        spec_decode(spec_encode(t)) == Ok::<UnverifiedView, DecoderError>(t),
{
    let items = t.items();
    let payload = spec_encode_items(items);
    let e = spec_encode(t);
    lemma_frame_of_encoding(true, payload, Seq::empty());
    assert(e + Seq::<u8>::empty() =~= e);
    lemma_items_fit(t);
    lemma_split_of_encoding(items);
    let u = t.unsigned;
    lemma_read_uint_of_item(u.nonce, 32);
    lemma_read_uint_of_item(u.gas_price, 32);
    lemma_read_uint_of_item(u.gas_limit, 32);
    lemma_read_uint_of_item(u.value, 32);
    lemma_read_uint_of_item(t.v, 8);
    lemma_read_uint_of_item(t.r, 32);
    lemma_read_uint_of_item(t.s, 32);
}

/// Whatever decodes is the encoding of what it decodes to, and that is
/// well-formed: only the one canonical encoding of a transaction decodes.
pub proof fn lemma_encode_of_decode(s: Seq<u8>)
    requires
        spec_decode(s) is Ok,
    ensures
        spec_decode(s)->Ok_0.wf(),
        spec_encode(spec_decode(s)->Ok_0) == s,
{
    let t = spec_decode(s)->Ok_0;
    let f = spec_frame(s)->Ok_0;
    let payload = payload_of(s, f);
    let items = spec_split_items(payload, 9)->Ok_0;
    lemma_encoding_of_frame(s);
    assert(s.subrange(0, s.len() as int) =~= s);
    lemma_encoding_of_split(payload, 9);
    lemma_item_of_read_uint(items[0], 32);
    lemma_item_of_read_uint(items[1], 32);
    lemma_item_of_read_uint(items[2], 32);
    lemma_item_of_read_uint(items[4], 32);
    lemma_item_of_read_uint(items[6], 8);
    lemma_item_of_read_uint(items[7], 32);
    lemma_item_of_read_uint(items[8], 32);
    assert(items[3] == recipient_item(t.unsigned.recipient)) by {
        if items[3].payload.len() == 0 {
            assert(items[3].payload =~= Seq::<u8>::empty());
        }
    }
    assert(items[5] == bytes_item(t.unsigned.data));
    assert(fits_header(items[5].payload.len()));
    assert(items =~= t.items());
}

/// A byte string decodes exactly when it is the encoding of a well-formed
/// signed transaction. So a truncated encoding, an encoding with bytes
/// behind it, an integer with a leading zero byte, or any other string that
/// is not canonical gives an error.
pub proof fn lemma_decodes_iff_canonical(s: Seq<u8>)
    ensures
        spec_decode(s) is Ok <==> exists|t: UnverifiedView| t.wf() && #[trigger] spec_encode(t) == s,
{
    if spec_decode(s) is Ok {
        lemma_encode_of_decode(s);
        assert(spec_encode(spec_decode(s)->Ok_0) == s);
    }
    if exists|t: UnverifiedView| t.wf() && #[trigger] spec_encode(t) == s {
        let t = choose|t: UnverifiedView| t.wf() && #[trigger] spec_encode(t) == s;
        lemma_decode_of_encode(t);
    }
}

/// A list of nine items in which an integer is written with a leading zero
/// byte is refused: a padded integer is not canonical. The integers are
/// all items but the fourth and the sixth.
pub proof fn lemma_padded_integer_refused(items: Seq<RawItem>, index: int)
    requires
        items.len() == 9,
        items_fit(items),
        fits_header(spec_encode_items(items).len()),
        0 <= index < 9 && index != 3 && index != 5,
        !is_minimal(items[index].payload),
    ensures
        spec_decode(spec_encode_list(spec_encode_items(items))) is Err,
{
    let payload = spec_encode_items(items);
    let e = spec_encode_list(payload);
    lemma_frame_of_encoding(true, payload, Seq::empty());
    assert(e + Seq::<u8>::empty() =~= e);
    lemma_split_of_encoding(items);
    assert(spec_read_uint(items[index], 8) is Err);
    assert(spec_read_uint(items[index], 32) is Err);
}

/// An encoding with anything behind it is refused as too big.
pub proof fn lemma_trailing_bytes_refused(t: UnverifiedView, extra: Seq<u8>)
    requires
        t.wf(),
        extra.len() > 0,
    ensures
        spec_decode(spec_encode(t) + extra) == Err::<UnverifiedView, DecoderError>(
            DecoderError::RlpIsTooBig,
        ),
{
    lemma_frame_of_encoding(true, spec_encode_items(t.items()), extra);
}

/// Every proper prefix of an encoding is refused.
pub proof fn lemma_truncation_refused(t: UnverifiedView, len: int)
    requires
        t.wf(),
        0 <= len < spec_encode(t).len(),
    ensures
        spec_decode(spec_encode(t).subrange(0, len)) is Err,
{
    let e = spec_encode(t);
    let cut = e.subrange(0, len);
    if spec_decode(cut) is Ok {
        let c = spec_decode(cut)->Ok_0;
        lemma_encode_of_decode(cut);
        lemma_frame_of_encoding(true, spec_encode_items(c.items()), e.subrange(len, e.len() as int));
        assert(cut + e.subrange(len, e.len() as int) =~= e);
        lemma_frame_of_encoding(true, spec_encode_items(t.items()), Seq::empty());
        assert(e + Seq::<u8>::empty() =~= e);
    }
}

/// What is signed for one chain is never what is signed for another, nor
/// what is signed for none: the signed bytes bind the chain.
pub proof fn lemma_signing_payload_binds_chain(
    t: TransactionView,
    chain_a: Option<u64>,
    chain_b: Option<u64>,
)
    requires
        t.signable(chain_a),
        t.signable(chain_b),
        chain_a != chain_b,
    ensures
        t.signing_payload(chain_a) != t.signing_payload(chain_b),
{
    let items_a = t.signing_items(chain_a);
    let items_b = t.signing_items(chain_b);
    let pa = spec_encode_items(items_a);
    let pb = spec_encode_items(items_b);
    if t.signing_payload(chain_a) == t.signing_payload(chain_b) {
        lemma_frame_of_encoding(true, pa, Seq::empty());
        lemma_frame_of_encoding(true, pb, Seq::empty());
        assert(pa == pb);
        lemma_signing_items_fit(t, chain_a);
        lemma_signing_items_fit(t, chain_b);
        lemma_split_of_encoding(items_a);
        lemma_split_of_encoding(items_b);
        if chain_a is Some && chain_b is Some {
            assert(items_a == items_b);
            assert(items_a[6] == uint_item(chain_a->0 as nat));
            assert(items_b[6] == uint_item(chain_b->0 as nat));
            lemma_be_value_of_bytes(chain_a->0 as nat);
            lemma_be_value_of_bytes(chain_b->0 as nat);
        } else {
            let c = if chain_a is Some {
                chain_a->0
            } else {
                chain_b->0
            };
            let six = t.items();
            let x = uint_item(c as nat);
            let z = uint_item(0);
            lemma_encode_items_push(six, x);
            lemma_encode_items_push(six.push(x), z);
            lemma_encode_items_push(six.push(x).push(z), z);
            assert(six + seq![x, z, z] =~= six.push(x).push(z).push(z));
            assert(spec_encode_item(false, x.payload).len() > 0);
        }
    }
}

/// The payloads of the items that are signed fit.
pub proof fn lemma_signing_items_fit(t: TransactionView, chain_id: Option<u64>)
    requires
        t.wf(),
    ensures
        items_fit(t.signing_items(chain_id)),
{
    lemma_pow256_8();
    lemma_be_bytes_len(t.nonce, 32);
    lemma_be_bytes_len(t.gas_price, 32);
    lemma_be_bytes_len(t.gas_limit, 32);
    lemma_be_bytes_len(t.value, 32);
    lemma_be_bytes_len(0, 8);
    if let Some(c) = chain_id {
        lemma_be_bytes_len(c as nat, 8);
    }
}

/// Appends the encoding of a 256-bit integer to `out`.
pub fn append_u256(out: &mut Vec<u8>, n: &U256)
    ensures
        final(out)@ == old(out)@ + spec_encode_uint(n@),
{
    let b = n.to_minimal_bytes();
    append_bytes(out, b.as_slice());
}

/// Appends the encoding of a recipient to `out`: the empty byte string for
/// a creation.
pub fn append_action(out: &mut Vec<u8>, action: &Action)
    ensures
        final(out)@ == old(out)@ + spec_encode_bytes(recipient_item(action@).payload),
{
    match action {
        Action::Create => {
            let empty: Vec<u8> = Vec::new();
            append_bytes(out, empty.as_slice());
        },
        Action::Call(address) => {
            append_bytes(out, address.bytes.as_slice());
        },
    }
}

impl Transaction {
    /// Appends the encodings of the six fields to `out`.
    pub fn append_fields(&self, out: &mut Vec<u8>)
        ensures
            final(out)@ == old(out)@ + spec_encode_items(self@.items()),
            self@.wf(),
    {
        let ghost t = self@;
        let ghost before = out@;
        let ghost i0 = Seq::<RawItem>::empty();
        let ghost i1 = i0.push(uint_item(t.nonce));
        let ghost i2 = i1.push(uint_item(t.gas_price));
        let ghost i3 = i2.push(uint_item(t.gas_limit));
        let ghost i4 = i3.push(recipient_item(t.recipient));
        let ghost i5 = i4.push(uint_item(t.value));
        let ghost i6 = i5.push(bytes_item(t.data));
        proof {
            lemma_encode_items_push(i0, uint_item(t.nonce));
            lemma_encode_items_push(i1, uint_item(t.gas_price));
            lemma_encode_items_push(i2, uint_item(t.gas_limit));
            lemma_encode_items_push(i3, recipient_item(t.recipient));
            lemma_encode_items_push(i4, uint_item(t.value));
            lemma_encode_items_push(i5, bytes_item(t.data));
            assert(i6 =~= t.items());
            assert(before + spec_encode_items(i0) =~= before);
        }
        append_u256(out, &self.nonce);
        assert(out@ =~= before + spec_encode_items(i1));
        append_u256(out, &self.gas_price);
        assert(out@ =~= before + spec_encode_items(i2));
        append_u256(out, &self.gas_limit);
        assert(out@ =~= before + spec_encode_items(i3));
        append_action(out, &self.action);
        assert(out@ =~= before + spec_encode_items(i4));
        append_u256(out, &self.value);
        assert(out@ =~= before + spec_encode_items(i5));
        append_bytes(out, self.data.as_slice());
        assert(out@ =~= before + spec_encode_items(i6));
        let data_len = self.data.len();
        proof {
            lemma_pow256_8();
            lemma_be_value_bound(self.nonce.bytes@);
            lemma_be_value_bound(self.gas_price.bytes@);
            lemma_be_value_bound(self.gas_limit.bytes@);
            lemma_be_value_bound(self.value.bytes@);
            assert(self.nonce.bytes@.len() == 32);
            assert(self.gas_price.bytes@.len() == 32);
            assert(self.gas_limit.bytes@.len() == 32);
            assert(self.value.bytes@.len() == 32);
            if let Action::Call(a) = self.action {
                assert(a.bytes@.len() == 20);
            }
            assert(self.data@.len() == data_len);
        }
    }

    /// The bytes that are hashed and signed: the list of the six fields,
    /// and, where a chain identifier is given, of that identifier and two
    /// zeros behind them.
    pub fn signing_payload(&self, chain_id: Option<u64>) -> (out: Vec<u8>)
        ensures
            out@ == self@.signing_payload(chain_id),
            self@.signable(chain_id),
    {
        let mut payload: Vec<u8> = Vec::new();
        self.append_fields(&mut payload);
        assert(payload@ =~= spec_encode_items(self@.items()));
        if let Some(c) = chain_id {
            let ghost six = self@.items();
            let ghost x = uint_item(c as nat);
            let ghost z = uint_item(0);
            proof {
                lemma_encode_items_push(six, x);
                lemma_encode_items_push(six.push(x), z);
                lemma_encode_items_push(six.push(x).push(z), z);
                assert(six + seq![x, z, z] =~= six.push(x).push(z).push(z));
            }
            append_u64(&mut payload, c);
            append_u64(&mut payload, 0);
            append_u64(&mut payload, 0);
            assert(payload@ =~= spec_encode_items(self@.signing_items(chain_id)));
        }
        let payload_len = payload.len();
        proof {
            lemma_pow256_8();
            assert(payload@.len() == payload_len);
        }
        encode_list(payload.as_slice())
    }
}

/// The wire encoding of a transaction with the signature fields `v`, `r`
/// and `s`.
pub fn encode_signed(transaction: &Transaction, v: u64, r: &U256, s: &U256) -> (out: Vec<u8>)
    ensures
        out@ == spec_encode(UnverifiedView { unsigned: transaction@, v: v as nat, r: r@, s: s@ }),
        (UnverifiedView { unsigned: transaction@, v: v as nat, r: r@, s: s@ }).wf(),
{
    let ghost t = UnverifiedView { unsigned: transaction@, v: v as nat, r: r@, s: s@ };
    let mut payload: Vec<u8> = Vec::new();
    transaction.append_fields(&mut payload);
    assert(payload@ =~= spec_encode_items(t.unsigned.items()));
    let ghost six = t.unsigned.items();
    let ghost iv = uint_item(t.v);
    let ghost ir = uint_item(t.r);
    let ghost is = uint_item(t.s);
    proof {
        lemma_encode_items_push(six, iv);
        lemma_encode_items_push(six.push(iv), ir);
        lemma_encode_items_push(six.push(iv).push(ir), is);
        assert(six + seq![iv, ir, is] =~= six.push(iv).push(ir).push(is));
    }
    append_u64(&mut payload, v);
    append_u256(&mut payload, r);
    append_u256(&mut payload, s);
    assert(payload@ =~= spec_encode_items(t.items()));
    let payload_len = payload.len();
    proof {
        lemma_pow256_8();
        lemma_be_value_bound(r.bytes@);
        lemma_be_value_bound(s.bytes@);
        assert(r.bytes@.len() == 32);
        assert(s.bytes@.len() == 32);
        assert(payload@.len() == payload_len);
    }
    encode_list(payload.as_slice())
}

impl UnverifiedTransaction {
    /// The wire encoding of the signed transaction.
    pub fn encode(&self) -> (out: Vec<u8>)
        ensures
            out@ == spec_encode(self@),
            self@.wf(),
    {
        encode_signed(&self.unsigned, self.v, &self.r, &self.s)
    }
}

/// Reads an item of `bytes` as a 256-bit integer.
pub fn read_u256(bytes: &[u8], item: &Item) -> (res: Result<U256, DecoderError>)
    requires
        item.start <= item.end <= bytes.len(),
    ensures
        match res {
            Ok(n) => spec_read_uint(item.raw(bytes@), 32) == Ok::<nat, DecoderError>(n@),
            Err(e) => spec_read_uint(item.raw(bytes@), 32) == Err::<nat, DecoderError>(e),
        },
{
    if item.is_list {
        Err(DecoderError::RlpExpectedToBeData)
    } else if item.end - item.start > 32 {
        Err(DecoderError::RlpIsTooBig)
    } else if item.end > item.start && bytes[item.start] == 0 {
        Err(DecoderError::RlpInvalidIndirection)
    } else {
        Ok(U256::from_be_slice(bytes, item.start, item.end))
    }
}

/// Reads an item of `bytes` as a 64-bit integer.
pub fn read_u64(bytes: &[u8], item: &Item) -> (res: Result<u64, DecoderError>)
    requires
        item.start <= item.end <= bytes.len(),
    ensures
        match res {
            Ok(n) => spec_read_uint(item.raw(bytes@), 8) == Ok::<nat, DecoderError>(n as nat),
            Err(e) => spec_read_uint(item.raw(bytes@), 8) == Err::<nat, DecoderError>(e),
        },
{
    if item.is_list {
        Err(DecoderError::RlpExpectedToBeData)
    } else if item.end - item.start > 8 {
        Err(DecoderError::RlpIsTooBig)
    } else if item.end > item.start && bytes[item.start] == 0 {
        Err(DecoderError::RlpInvalidIndirection)
    } else {
        Ok(read_be_u64(bytes, item.start, item.end))
    }
}

/// Reads an item of `bytes` as a recipient.
pub fn read_action(bytes: &[u8], item: &Item) -> (res: Result<Action, DecoderError>)
    requires
        item.start <= item.end <= bytes.len(),
    ensures
        match res {
            Ok(a) => spec_read_recipient(item.raw(bytes@)) == Ok::<Option<Seq<u8>>, DecoderError>(
                a@,
            ),
            Err(e) => spec_read_recipient(item.raw(bytes@)) == Err::<
                Option<Seq<u8>>,
                DecoderError,
            >(e),
        },
{
    let len = item.end - item.start;
    if item.is_list {
        Err(DecoderError::RlpExpectedToBeData)
    } else if len == 0 {
        Ok(Action::Create)
    } else if len < 20 {
        Err(DecoderError::RlpIsTooShort)
    } else if len > 20 {
        Err(DecoderError::RlpIsTooBig)
    } else {
        let mut address = [0u8; 20];
        let mut i: usize = 0;
        while i < 20
            invariant
                i <= 20,
                item.start + 20 == item.end <= bytes.len(),
                forall|k: int| 0 <= k < i ==> address@[k] == bytes@[item.start + k],
            decreases 20 - i,
        {
            address[i] = bytes[item.start + i];
            i = i + 1;
        }
        assert(address@ =~= item.payload(bytes@));
        Ok(Action::Call(Address { bytes: address }))
    }
}

/// Reads an item of `bytes` as a byte string.
pub fn read_data(bytes: &[u8], item: &Item) -> (res: Result<Vec<u8>, DecoderError>)
    requires
        item.start <= item.end <= bytes.len(),
    ensures
        match res {
            Ok(d) => spec_read_bytes(item.raw(bytes@)) == Ok::<Seq<u8>, DecoderError>(d@),
            Err(e) => spec_read_bytes(item.raw(bytes@)) == Err::<Seq<u8>, DecoderError>(e),
        },
{
    if item.is_list {
        Err(DecoderError::RlpExpectedToBeData)
    } else {
        Ok(slice_to_vec(slice_subrange(bytes, item.start, item.end)))
    }
}

/// Decodes the wire encoding of a signed transaction. Succeeds exactly on
/// the canonical encoding of nine fields and returns these; on any other
/// input returns the reason, and never panics.
pub fn decode(bytes: &[u8]) -> (res: Result<UnverifiedTransaction, DecoderError>)
    ensures
        match res {
            Ok(t) => spec_decode(bytes@) == Ok::<UnverifiedView, DecoderError>(t@),
            Err(e) => spec_decode(bytes@) == Err::<UnverifiedView, DecoderError>(e),
        },
{
    assert(bytes@.skip(0) =~= bytes@);
    let outer = decode_frame(bytes, 0)?;
    if !outer.is_list {
        return Err(DecoderError::RlpExpectedToBeList);
    }
    if outer.end < bytes.len() {
        return Err(DecoderError::RlpIsTooBig);
    }
    let payload = slice_subrange(bytes, outer.start, outer.end);
    assert(payload@.skip(0) =~= payload@);
    let mut items: Vec<Item> = Vec::new();
    split_items(payload, 0, 9, &mut items)?;
    let ghost raw = spec_split_items(payload@, 9)->Ok_0;
    assert(items@.subrange(0, 9) =~= items@);
    assert(forall|i: int| 0 <= i < 9 ==> (#[trigger] items@[i]).raw(payload@) == raw[i]);
    let nonce = read_u256(payload, &items[0])?;
    let gas_price = read_u256(payload, &items[1])?;
    let gas_limit = read_u256(payload, &items[2])?;
    let action = read_action(payload, &items[3])?;
    let value = read_u256(payload, &items[4])?;
    let data = read_data(payload, &items[5])?;
    let v = read_u64(payload, &items[6])?;
    let r = read_u256(payload, &items[7])?;
    let s = read_u256(payload, &items[8])?;
    Ok(
        UnverifiedTransaction {
            unsigned: Transaction { nonce, gas_price, gas_limit, action, value, data },
            v,
            r,
            s,
        },
    )
}

} // verus!
