//! Lists of byte strings on the wire.
//!
//! A transaction is a list whose items are all byte strings. This module
//! says what the payload of such a list looks like, splits a payload into
//! its items, and proves that splitting and joining are inverse.

use vstd::prelude::*;
use crate::rlp::{
    decode_frame, fits_header, lemma_encoding_of_frame, lemma_frame_of_encoding, payload_of,
    spec_encode_item, spec_frame, DecoderError, Item,
};

verus! {

/// An item as a value: its kind and its payload.
pub struct RawItem {
    pub is_list: bool,
    pub payload: Seq<u8>,
}

/// The encodings of `items`, joined.
pub open spec fn spec_encode_items(items: Seq<RawItem>) -> Seq<u8>
    decreases items.len(),
{
    if items.len() == 0 {
        Seq::empty()
    } else {
        spec_encode_item(items[0].is_list, items[0].payload) + spec_encode_items(items.skip(1))
    }
}

/// Splits `s` into exactly `n` items, with nothing left over.
pub open spec fn spec_split_items(s: Seq<u8>, n: nat) -> Result<Seq<RawItem>, DecoderError>
    decreases n,
{
    if n == 0 {
        if s.len() == 0 {
            Ok(Seq::empty())
        } else {
            Err(DecoderError::RlpIncorrectListLen)
        }
    } else if s.len() == 0 {
        Err(DecoderError::RlpIncorrectListLen)
    } else {
        match spec_frame(s) {
            Err(e) => Err(e),
            Ok(f) => match spec_split_items(s.skip(f.total() as int), (n - 1) as nat) {
                Err(e) => Err(e),
                Ok(rest) => Ok(
                    seq![RawItem { is_list: f.is_list, payload: payload_of(s, f) }] + rest,
                ),
            },
        }
    }
}

/// Every payload is short enough for a header.
pub open spec fn items_fit(items: Seq<RawItem>) -> bool {
    forall|i: int| 0 <= i < items.len() ==> fits_header(#[trigger] items[i].payload.len())
}

/// Joining one item more appends its encoding.
pub proof fn lemma_encode_items_push(items: Seq<RawItem>, x: RawItem)
    ensures
        spec_encode_items(items.push(x)) == spec_encode_items(items) + spec_encode_item(
            x.is_list,
            x.payload,
        ),
    decreases items.len(),
{
    let e = spec_encode_item(x.is_list, x.payload);
    if items.len() == 0 {
        assert(items.push(x).skip(1) =~= Seq::<RawItem>::empty());
        assert(spec_encode_items(items.push(x).skip(1)) =~= Seq::<u8>::empty());
        assert(spec_encode_items(items.push(x)) =~= e);
        assert(spec_encode_items(items) + e =~= e);
    } else {
        lemma_encode_items_push(items.skip(1), x);
        assert(items.push(x).skip(1) =~= items.skip(1).push(x));
        assert(spec_encode_items(items.push(x)) =~= spec_encode_items(items) + e);
    }
}

/// Splitting what was joined gives the items back.
pub proof fn lemma_split_of_encoding(items: Seq<RawItem>)
    requires
        items_fit(items),
    ensures
        spec_split_items(spec_encode_items(items), items.len()) == Ok::<Seq<RawItem>, DecoderError>(
            items,
        ),
    decreases items.len(),
{
    if items.len() > 0 {
        let head = items[0];
        let tail = items.skip(1);
        let e = spec_encode_item(head.is_list, head.payload);
        let s = spec_encode_items(items);
        assert(fits_header(head.payload.len()));
        lemma_frame_of_encoding(head.is_list, head.payload, spec_encode_items(tail));
        let f = spec_frame(s)->Ok_0;
        assert(s.skip(f.total() as int) =~= spec_encode_items(tail));
        assert forall|i: int| 0 <= i < tail.len() implies fits_header(
            #[trigger] tail[i].payload.len(),
        ) by {
            assert(tail[i] == items[i + 1]);
        }
        lemma_split_of_encoding(tail);
        assert(e.len() > 0);
        assert(s.len() > 0);
        let first = RawItem { is_list: f.is_list, payload: payload_of(s, f) };
        assert(first == head);
        assert(seq![first] + tail =~= items);
    } else {
        assert(items =~= Seq::<RawItem>::empty());
    }
}

/// What splits into items is the joined encoding of these items: a payload
/// has one reading.
pub proof fn lemma_encoding_of_split(s: Seq<u8>, n: nat)
    requires
        spec_split_items(s, n) is Ok,
    ensures
        spec_split_items(s, n)->Ok_0.len() == n,
        items_fit(spec_split_items(s, n)->Ok_0),
        spec_encode_items(spec_split_items(s, n)->Ok_0) == s,
    decreases n,
{
    let items = spec_split_items(s, n)->Ok_0;
    if n == 0 {
        assert(s =~= Seq::<u8>::empty());
    } else {
        let f = spec_frame(s)->Ok_0;
        let rest_bytes = s.skip(f.total() as int);
        let rest = spec_split_items(rest_bytes, (n - 1) as nat)->Ok_0;
        lemma_encoding_of_frame(s);
        lemma_encoding_of_split(rest_bytes, (n - 1) as nat);
        assert(items.skip(1) =~= rest);
        assert(s =~= s.subrange(0, f.total() as int) + rest_bytes);
        assert forall|i: int| 0 <= i < items.len() implies fits_header(
            #[trigger] items[i].payload.len(),
        ) by {
            if i > 0 {
                assert(items[i] == rest[i - 1]);
            }
        }
    }
}

impl Item {
    /// The item as a value, its payload taken from `bytes`.
    pub open spec fn raw(self, bytes: Seq<u8>) -> RawItem {
        RawItem { is_list: self.is_list, payload: self.payload(bytes) }
    }

    /// The item lies within `bytes` and is the value `raw`.
    pub open spec fn is_raw(self, bytes: Seq<u8>, raw: RawItem) -> bool {
        &&& self.is_list == raw.is_list
        &&& self.start <= self.end <= bytes.len()
        &&& self.payload(bytes) == raw.payload
    }
}

/// The items `found` lie within `bytes` and are the values `raw`.
pub open spec fn items_are(found: Seq<Item>, bytes: Seq<u8>, raw: Seq<RawItem>) -> bool {
    &&& found.len() == raw.len()
    &&& forall|i: int| 0 <= i < found.len() ==> (#[trigger] found[i]).is_raw(bytes, raw[i])
}

/// Frames `n` items from `pos` to the end of `bytes` and appends them to
/// `out`, or says why the bytes from `pos` on are not exactly `n` items.
pub fn split_items(bytes: &[u8], pos: usize, n: usize, out: &mut Vec<Item>) -> (res: Result<
    (),
    DecoderError,
>)
    requires
        pos <= bytes.len(),
    ensures
        match res {
            Ok(_) => spec_split_items(bytes@.skip(pos as int), n as nat) matches Ok(raw)
                && final(out)@.len() == old(out)@.len() + n && final(out)@.subrange(
                0,
                old(out)@.len() as int,
            ) == old(out)@ && items_are(
                final(out)@.subrange(old(out)@.len() as int, final(out)@.len() as int),
                bytes@,
                raw,
            ),
            Err(e) => spec_split_items(bytes@.skip(pos as int), n as nat) == Err::<
                Seq<RawItem>,
                DecoderError,
            >(e),
        },
    decreases n,
{
    let ghost s = bytes@.skip(pos as int);
    let ghost before = out@;
    if n == 0 {
        if pos == bytes.len() {
            assert(out@.subrange(0, out@.len() as int) =~= out@);
            Ok(())
        } else {
            Err(DecoderError::RlpIncorrectListLen)
        }
    } else if pos == bytes.len() {
        Err(DecoderError::RlpIncorrectListLen)
    } else {
        match decode_frame(bytes, pos) {
            Err(e) => Err(e),
            Ok(item) => {
                let ghost f = spec_frame(s)->Ok_0;
                let ghost first = RawItem { is_list: f.is_list, payload: payload_of(s, f) };
                assert(s.skip(f.total() as int) =~= bytes@.skip(item.end as int));
                out.push(item);
                let ghost middle = out@;
                match split_items(bytes, item.end, n - 1, out) {
                    Err(e) => Err(e),
                    Ok(_) => {
                        proof {
                            let rest = spec_split_items(
                                bytes@.skip(item.end as int),
                                (n - 1) as nat,
                            )->Ok_0;
                            let raw = seq![first] + rest;
                            let b = before.len() as int;
                            let found = out@.subrange(b, out@.len() as int);
                            let tail = out@.subrange(b + 1, out@.len() as int);
                            assert(out@.subrange(0, b + 1) == middle);
                            assert(out@.subrange(0, b) =~= before) by {
                                assert forall|i: int| 0 <= i < b implies out@[i] == before[i] by {
                                    assert(out@.subrange(0, b + 1)[i] == middle[i]);
                                }
                            }
                            assert(out@[b] == item) by {
                                assert(out@.subrange(0, b + 1)[b] == middle[b]);
                            }
                            assert forall|i: int| 0 <= i < found.len() implies (
                            #[trigger] found[i]).is_raw(bytes@, raw[i]) by {
                                if i > 0 {
                                    assert(found[i] == tail[i - 1]);
                                    assert(tail[i - 1].is_raw(bytes@, rest[i - 1]));
                                }
                            }
                        }
                        Ok(())
                    },
                }
            },
        }
    }
}

} // verus!
