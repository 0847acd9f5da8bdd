//! The framing of items on the wire.
//!
//! An item is a byte string or a list. A byte string of one byte below 0x80
//! stands for itself. Any other payload follows a header: one byte that
//! holds the payload's length where it is at most 55, else one byte that
//! holds the length of the length, followed by the length as a minimal
//! big-endian number. Headers of byte strings start at 0x80, those of lists
//! at 0xc0. Only the shortest form of an item is valid.

use vstd::prelude::*;
use crate::big_endian::{
    be_bytes, be_value, lemma_be_bytes_len, lemma_be_bytes_of_value, lemma_be_value_bound,
    lemma_be_value_of_bytes, lemma_pow256_8, lemma_pow256_monotonic, minimal_be_bytes, pow256,
    read_be_u64,
};

verus! {

/// Why a byte string is not a valid encoding.
#[derive(Clone, Copy, Debug, PartialEq, Eq, Structural)]
pub enum DecoderError {
    /// Bytes follow the end of the item, or a field has too many bytes.
    RlpIsTooBig,
    /// The input ends before the item does, or a recipient has too few
    /// bytes.
    RlpIsTooShort,
    /// A list was expected, a byte string was found.
    RlpExpectedToBeList,
    /// A byte string was expected, a list was found.
    RlpExpectedToBeData,
    /// The list has not the number of items that was expected.
    RlpIncorrectListLen,
    /// The length of a byte string starts with a zero byte.
    RlpDataLenWithZeroPrefix,
    /// The length of a list starts with a zero byte.
    RlpListLenWithZeroPrefix,
    /// A longer form was used than the payload needs.
    RlpInvalidIndirection,
}

/// First header byte of byte strings.
pub const DATA_OFFSET: u8 = 0x80;

/// First header byte of lists.
pub const LIST_OFFSET: u8 = 0xc0;

/// The frame of one item: its kind, and how many bytes its header and its
/// payload take.
pub struct Frame {
    pub is_list: bool,
    pub header_len: nat,
    pub payload_len: nat,
}

impl Frame {
    /// Header and payload together.
    pub open spec fn total(self) -> nat {
        self.header_len + self.payload_len
    }
}

/// The header in front of a payload of `len` bytes.
pub open spec fn spec_header(len: nat, offset: u8) -> Seq<u8> {
    if len <= 55 {
        seq![(offset + len) as u8]
    } else {
        seq![(offset + 55 + be_bytes(len).len()) as u8] + be_bytes(len)
    }
}

/// The encoding of the byte string `b`.
pub open spec fn spec_encode_bytes(b: Seq<u8>) -> Seq<u8> {
    if b.len() == 1 && b[0] < 0x80 {
        b
    } else {
        spec_header(b.len(), DATA_OFFSET) + b
    }
}

/// The encoding of the number `n`: that of its minimal big-endian bytes.
pub open spec fn spec_encode_uint(n: nat) -> Seq<u8> {
    spec_encode_bytes(be_bytes(n))
}

/// The encoding of the list whose items, already encoded and joined, are
/// `payload`.
pub open spec fn spec_encode_list(payload: Seq<u8>) -> Seq<u8> {
    spec_header(payload.len(), LIST_OFFSET) + payload
}

/// The frame of an item in long form, whose length takes `lol` bytes.
pub open spec fn spec_long_frame(s: Seq<u8>, lol: nat, is_list: bool) -> Result<Frame, DecoderError> {
    if s.len() < 1 + lol {
        Err(DecoderError::RlpIsTooShort)
    } else if s[1] == 0 {
        Err(
            if is_list {
                DecoderError::RlpListLenWithZeroPrefix
            } else {
                DecoderError::RlpDataLenWithZeroPrefix
            },
        )
    } else {
        let len = be_value(s.subrange(1, 1 + lol as int));
        if len <= 55 {
            Err(DecoderError::RlpInvalidIndirection)
        } else if s.len() < 1 + lol + len {
            Err(DecoderError::RlpIsTooShort)
        } else {
            Ok(Frame { is_list, header_len: 1 + lol, payload_len: len })
        }
    }
}

/// The frame of the item that `s` starts with, or why `s` starts with none.
pub open spec fn spec_frame(s: Seq<u8>) -> Result<Frame, DecoderError> {
    if s.len() == 0 {
        Err(DecoderError::RlpIsTooShort)
    } else if s[0] < 0x80 {
        Ok(Frame { is_list: false, header_len: 0, payload_len: 1 })
    } else if s[0] <= 0xb7 {
        let len = (s[0] - 0x80) as nat;
        if s.len() < 1 + len {
            Err(DecoderError::RlpIsTooShort)
        } else if len == 1 && s[1] < 0x80 {
            Err(DecoderError::RlpInvalidIndirection)
        } else {
            Ok(Frame { is_list: false, header_len: 1, payload_len: len })
        }
    } else if s[0] <= 0xbf {
        spec_long_frame(s, (s[0] - 0xb7) as nat, false)
    } else if s[0] <= 0xf7 {
        let len = (s[0] - 0xc0) as nat;
        if s.len() < 1 + len {
            Err(DecoderError::RlpIsTooShort)
        } else {
            Ok(Frame { is_list: true, header_len: 1, payload_len: len })
        }
    } else {
        spec_long_frame(s, (s[0] - 0xf7) as nat, true)
    }
}

/// The payload of the item that `s` starts with.
pub open spec fn payload_of(s: Seq<u8>, f: Frame) -> Seq<u8> {
    s.subrange(f.header_len as int, f.total() as int)
}

/// The encoding of an item with the given kind and payload.
pub open spec fn spec_encode_item(is_list: bool, payload: Seq<u8>) -> Seq<u8> {
    if is_list {
        spec_encode_list(payload)
    } else {
        spec_encode_bytes(payload)
    }
}

/// A length that a 64-bit header can hold.
pub open spec fn fits_header(len: nat) -> bool {
    len < pow256(8)
}

/// An encoded item, whatever follows it, is framed as what was encoded:
/// same kind, same payload, and a frame that ends where the encoding ends.
pub proof fn lemma_frame_of_encoding(is_list: bool, payload: Seq<u8>, rest: Seq<u8>)
    requires
        fits_header(payload.len()),
    ensures
        spec_frame(spec_encode_item(is_list, payload) + rest) matches Ok(f) && f.is_list == is_list
            && f.total() == spec_encode_item(is_list, payload).len() && payload_of(
            spec_encode_item(is_list, payload) + rest,
            f,
        ) == payload,
{
    let e = spec_encode_item(is_list, payload);
    let s = e + rest;
    let len = payload.len();
    if !is_list && len == 1 && payload[0] < 0x80 {
        assert(s[0] == payload[0]);
        assert(s.subrange(0, 1) =~= payload);
    } else if len <= 55 {
        assert(s[0] == e[0]);
        if len == 1 {
            assert(s[1] == payload[0]);
        }
        assert(s.subrange(1, 1 + len as int) =~= payload);
    } else {
        let l = be_bytes(len);
        lemma_pow256_8();
        lemma_be_bytes_len(len, 8);
        lemma_be_value_of_bytes(len);
        let lol = l.len();
        assert(1 <= lol <= 8);
        assert(s[0] == e[0]);
        assert(s[1] == l[0]);
        assert(s.subrange(1, 1 + lol as int) =~= l);
        assert(s.subrange(1 + lol as int, 1 + lol as int + len as int) =~= payload);
    }
}

/// Where `s` starts with an item, the bytes of that item are the encoding
/// of its kind and payload: an item has one encoding.
pub proof fn lemma_encoding_of_frame(s: Seq<u8>)
    requires
        spec_frame(s) is Ok,
    ensures
        spec_frame(s)->Ok_0.total() <= s.len(),
        fits_header(spec_frame(s)->Ok_0.payload_len),
        s.subrange(0, spec_frame(s)->Ok_0.total() as int) == spec_encode_item(
            spec_frame(s)->Ok_0.is_list,
            payload_of(s, spec_frame(s)->Ok_0),
        ),
{
    let f = spec_frame(s)->Ok_0;
    let p = payload_of(s, f);
    let e = spec_encode_item(f.is_list, p);
    let t = s.subrange(0, f.total() as int);
    lemma_pow256_8();
    if s[0] < 0x80 {
        assert(t =~= e);
    } else if s[0] <= 0xb7 || (0xc0 <= s[0] <= 0xf7) {
        if f.payload_len == 1 && !f.is_list {
            assert(p[0] == s[1]);
        }
        assert(t =~= e);
    } else {
        let lol = (f.header_len - 1) as nat;
        let l = s.subrange(1, 1 + lol as int);
        assert(l[0] == s[1]);
        lemma_be_bytes_of_value(l);
        lemma_be_value_bound(l);
        lemma_pow256_monotonic(lol, 8);
        assert(t =~= e);
    }
}

/// Where the payload of an item lies in a buffer.
#[derive(Clone, Copy, Debug, PartialEq, Eq, Structural)]
pub struct Item {
    /// Whether the item is a list.
    pub is_list: bool,
    /// Index of the first byte of the payload.
    pub start: usize,
    /// Index behind the last byte of the payload.
    pub end: usize,
}

impl Item {
    /// The item lies at `pos` in `bytes` as the frame `f` says.
    pub open spec fn matches_frame(self, f: Frame, pos: int) -> bool {
        &&& self.is_list == f.is_list
        &&& self.start == pos + f.header_len
        &&& self.end == pos + f.total()
    }

    /// The payload of the item in `bytes`.
    pub open spec fn payload(self, bytes: Seq<u8>) -> Seq<u8> {
        bytes.subrange(self.start as int, self.end as int)
    }
}

/// Appends to `out` the header of a list, or of a byte string, whose
/// payload has `len` bytes.
pub fn append_header(out: &mut Vec<u8>, len: usize, is_list: bool)
    ensures
        final(out)@ == old(out)@ + spec_header(
            len as nat,
            if is_list {
                LIST_OFFSET
            } else {
                DATA_OFFSET
            },
        ),
{
    let offset = if is_list {
        LIST_OFFSET
    } else {
        DATA_OFFSET
    };
    if len <= 55 {
        out.push(offset + len as u8);
        assert(out@ =~= old(out)@ + spec_header(len as nat, offset));
    } else {
        let l = minimal_be_bytes(len as u64);
        proof {
            lemma_be_value_of_bytes(len as nat);
        }
        out.push(offset + 55 + l.len() as u8);
        out.extend_from_slice(l.as_slice());
        assert(out@ =~= old(out)@ + spec_header(len as nat, offset));
    }
}

/// Appends the encoding of the byte string `b` to `out`.
pub fn append_bytes(out: &mut Vec<u8>, b: &[u8])
    ensures
        final(out)@ == old(out)@ + spec_encode_bytes(b@),
{
    if b.len() == 1 && b[0] < 0x80 {
        out.push(b[0]);
        assert(out@ =~= old(out)@ + spec_encode_bytes(b@));
    } else {
        append_header(out, b.len(), false);
        out.extend_from_slice(b);
        assert(out@ =~= old(out)@ + spec_encode_bytes(b@));
    }
}

/// Appends the encoding of the number `n` to `out`.
pub fn append_u64(out: &mut Vec<u8>, n: u64)
    ensures
        final(out)@ == old(out)@ + spec_encode_uint(n as nat),
{
    let b = minimal_be_bytes(n);
    append_bytes(out, b.as_slice());
}

/// The encoding of the list whose encoded items, joined, are `payload`.
pub fn encode_list(payload: &[u8]) -> (out: Vec<u8>)
    ensures
        out@ == spec_encode_list(payload@),
{
    let mut out: Vec<u8> = Vec::new();
    append_header(&mut out, payload.len(), true);
    out.extend_from_slice(payload);
    assert(out@ =~= spec_encode_list(payload@));
    out
}

/// Frames the item in long form at `pos`, whose length takes `lol` bytes.
fn decode_long_frame(bytes: &[u8], pos: usize, lol: usize, is_list: bool) -> (res: Result<
    Item,
    DecoderError,
>)
    requires
        pos < bytes.len(),
        1 <= lol <= 8,
    ensures
        match res {
            Ok(item) => spec_long_frame(bytes@.skip(pos as int), lol as nat, is_list) matches Ok(f)
                && item.matches_frame(f, pos as int) && item.end <= bytes.len(),
            Err(e) => spec_long_frame(bytes@.skip(pos as int), lol as nat, is_list) == Err::<
                Frame,
                DecoderError,
            >(e),
        },
{
    let ghost s = bytes@.skip(pos as int);
    let avail = bytes.len() - pos;
    if avail < 1 + lol {
        return Err(DecoderError::RlpIsTooShort);
    }
    assert(s[1] == bytes@[pos + 1]);
    if bytes[pos + 1] == 0 {
        return Err(
            if is_list {
                DecoderError::RlpListLenWithZeroPrefix
            } else {
                DecoderError::RlpDataLenWithZeroPrefix
            },
        );
    }
    let len = read_be_u64(bytes, pos + 1, pos + 1 + lol);
    assert(s.subrange(1, 1 + lol as int) =~= bytes@.subrange(pos + 1, pos + 1 + lol));
    if len <= 55 {
        return Err(DecoderError::RlpInvalidIndirection);
    }
    if len > (avail - 1 - lol) as u64 {
        return Err(DecoderError::RlpIsTooShort);
    }
    Ok(Item { is_list, start: pos + 1 + lol, end: pos + 1 + lol + len as usize })
}

/// Frames the item that starts at `pos`: says where its payload lies, or
/// why no item starts there.
pub fn decode_frame(bytes: &[u8], pos: usize) -> (res: Result<Item, DecoderError>)
    requires
        pos <= bytes.len(),
    ensures
        match res {
            Ok(item) => spec_frame(bytes@.skip(pos as int)) matches Ok(f) && item.matches_frame(
                f,
                pos as int,
            ) && item.end <= bytes.len() && item.payload(bytes@) == payload_of(
                bytes@.skip(pos as int),
                f,
            ),
            Err(e) => spec_frame(bytes@.skip(pos as int)) == Err::<Frame, DecoderError>(e),
        },
{
    let ghost s = bytes@.skip(pos as int);
    if pos >= bytes.len() {
        return Err(DecoderError::RlpIsTooShort);
    }
    let avail = bytes.len() - pos;
    let b = bytes[pos];
    assert(s[0] == b);
    let res = if b < 0x80 {
        Ok(Item { is_list: false, start: pos, end: pos + 1 })
    } else if b <= 0xb7 {
        let len = (b - 0x80) as usize;
        if avail < 1 + len {
            Err(DecoderError::RlpIsTooShort)
        } else if len == 1 && bytes[pos + 1] < 0x80 {
            assert(s[1] == bytes@[pos + 1]);
            Err(DecoderError::RlpInvalidIndirection)
        } else {
            assert(len == 1 ==> s[1] == bytes@[pos + 1]);
            Ok(Item { is_list: false, start: pos + 1, end: pos + 1 + len })
        }
    } else if b <= 0xbf {
        decode_long_frame(bytes, pos, (b - 0xb7) as usize, false)
    } else if b <= 0xf7 {
        let len = (b - 0xc0) as usize;
        if avail < 1 + len {
            Err(DecoderError::RlpIsTooShort)
        } else {
            Ok(Item { is_list: true, start: pos + 1, end: pos + 1 + len })
        }
    } else {
        decode_long_frame(bytes, pos, (b - 0xf7) as usize, true)
    };
    proof {
        if let Ok(item) = res {
            let f = spec_frame(s)->Ok_0;
            assert(item.payload(bytes@) =~= payload_of(s, f));
        }
    }
    res
}

} // verus!
