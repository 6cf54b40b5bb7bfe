//! Element types the secure array can hold: values duplicable through a
//! fixed-size byte encoding with a proved round trip, together with the
//! element's layout (size and required alignment) as plain values.

use vstd::prelude::*;

verus! {

/// An element type of the secure array. A value is duplicated into a slot
/// by encoding it; it is read back by decoding the slot's bytes.
pub trait Element: Sized {
    /// The element's encoded size in bytes.
    spec fn size_spec() -> nat;

    /// The element's required alignment in bytes.
    spec fn align_spec() -> nat;

    /// The element's byte encoding.
    spec fn encode_spec(self) -> Seq<u8>;

    /// The element a byte encoding stands for.
    spec fn decode_spec(s: Seq<u8>) -> Self;

    /// An element occupies at least one byte.
    proof fn lemma_size_pos()
        ensures
            Self::size_spec() >= 1;

    /// An encoding is exactly `size_spec` bytes long.
    proof fn lemma_encode_len(v: Self)
        ensures
            v.encode_spec().len() == Self::size_spec();

    /// Decoding an element's encoding yields the element back.
    proof fn lemma_round_trip(v: Self)
        ensures
            Self::decode_spec(v.encode_spec()) == v;

    /// The element's encoded size in bytes.
    fn size() -> (r: usize)
        ensures
            r == Self::size_spec();

    /// The element's required alignment in bytes.
    fn align() -> (r: usize)
        ensures
            r == Self::align_spec();

    /// Encodes the element.
    fn encode(&self) -> (r: Vec<u8>)
        ensures
            r@ == (*self).encode_spec();

    /// Decodes an element from exactly `size_spec` bytes.
    fn decode(bytes: &Vec<u8>) -> (r: Self)
        requires
            bytes@.len() == Self::size_spec(),
        ensures
            r == Self::decode_spec(bytes@);
}

impl Element for u8 {
    open spec fn size_spec() -> nat {
        1
    }

    open spec fn align_spec() -> nat {
        1
    }

    open spec fn encode_spec(self) -> Seq<u8> {
        seq![self]
    }

    open spec fn decode_spec(s: Seq<u8>) -> u8 {
        s[0]
    }

    proof fn lemma_size_pos() {
    }

    proof fn lemma_encode_len(v: u8) {
    }

    proof fn lemma_round_trip(v: u8) {
    }

    fn size() -> (r: usize) {
        1
    }

    fn align() -> (r: usize) {
        1
    }

    fn encode(&self) -> (r: Vec<u8>) {
        let mut out: Vec<u8> = Vec::new();
        out.push(*self);
        proof {
            assert(out@ =~= seq![*self]);
        }
        out
    }

    fn decode(bytes: &Vec<u8>) -> (r: u8) {
        bytes[0]
    }
}

impl Element for u32 {
    open spec fn size_spec() -> nat {
        4
    }

    open spec fn align_spec() -> nat {
        4
    }

    open spec fn encode_spec(self) -> Seq<u8> {
        seq![
            (self & 0xff) as u8,
            ((self >> 8) & 0xff) as u8,
            ((self >> 16) & 0xff) as u8,
            ((self >> 24) & 0xff) as u8,
        ]
    }

    open spec fn decode_spec(s: Seq<u8>) -> u32 {
        (s[0] as u32) | ((s[1] as u32) << 8) | ((s[2] as u32) << 16) | ((s[3] as u32) << 24)
    }

    proof fn lemma_size_pos() {
    }

    proof fn lemma_encode_len(v: u32) {
    }

    proof fn lemma_round_trip(v: u32) {
        let b0 = (v & 0xff) as u8;
        let b1 = ((v >> 8) & 0xff) as u8;
        let b2 = ((v >> 16) & 0xff) as u8;
        let b3 = ((v >> 24) & 0xff) as u8;
        assert((b0 as u32) | ((b1 as u32) << 8) | ((b2 as u32) << 16) | ((b3 as u32) << 24)
            == v) by (bit_vector)
            requires
                b0 == (v & 0xff) as u8,
                b1 == ((v >> 8) & 0xff) as u8,
                b2 == ((v >> 16) & 0xff) as u8,
                b3 == ((v >> 24) & 0xff) as u8,
        ;
    }

    fn size() -> (r: usize) {
        4
    }

    fn align() -> (r: usize) {
        4
    }

    fn encode(&self) -> (r: Vec<u8>) {
        let v = *self;
        let mut out: Vec<u8> = Vec::new();
        out.push((v & 0xff) as u8);
        out.push(((v >> 8) & 0xff) as u8);
        out.push(((v >> 16) & 0xff) as u8);
        out.push(((v >> 24) & 0xff) as u8);
        proof {
            assert(out@ =~= v.encode_spec());
        }
        out
    }

    fn decode(bytes: &Vec<u8>) -> (r: u32) {
        (bytes[0] as u32) | ((bytes[1] as u32) << 8) | ((bytes[2] as u32) << 16) | ((bytes[3]
            as u32) << 24)
    }
}

impl Element for u64 {
    open spec fn size_spec() -> nat {
        8
    }

    open spec fn align_spec() -> nat {
        8
    }

    open spec fn encode_spec(self) -> Seq<u8> {
        seq![
            (self & 0xff) as u8,
            ((self >> 8) & 0xff) as u8,
            ((self >> 16) & 0xff) as u8,
            ((self >> 24) & 0xff) as u8,
            ((self >> 32) & 0xff) as u8,
            ((self >> 40) & 0xff) as u8,
            ((self >> 48) & 0xff) as u8,
            ((self >> 56) & 0xff) as u8,
        ]
    }

    open spec fn decode_spec(s: Seq<u8>) -> u64 {
        (s[0] as u64) | ((s[1] as u64) << 8) | ((s[2] as u64) << 16) | ((s[3] as u64) << 24) | (
        (s[4] as u64) << 32) | ((s[5] as u64) << 40) | ((s[6] as u64) << 48) | ((s[7] as u64)
            << 56)
    }

    proof fn lemma_size_pos() {
    }

    proof fn lemma_encode_len(v: u64) {
    }

    proof fn lemma_round_trip(v: u64) {
        let b0 = (v & 0xff) as u8;
        let b1 = ((v >> 8) & 0xff) as u8;
        let b2 = ((v >> 16) & 0xff) as u8;
        let b3 = ((v >> 24) & 0xff) as u8;
        let b4 = ((v >> 32) & 0xff) as u8;
        let b5 = ((v >> 40) & 0xff) as u8;
        let b6 = ((v >> 48) & 0xff) as u8;
        let b7 = ((v >> 56) & 0xff) as u8;
        assert((b0 as u64) | ((b1 as u64) << 8) | ((b2 as u64) << 16) | ((b3 as u64) << 24) | (
        (b4 as u64) << 32) | ((b5 as u64) << 40) | ((b6 as u64) << 48) | ((b7 as u64) << 56)
            == v) by (bit_vector)
            requires
                b0 == (v & 0xff) as u8,
                b1 == ((v >> 8) & 0xff) as u8,
                b2 == ((v >> 16) & 0xff) as u8,
                b3 == ((v >> 24) & 0xff) as u8,
                b4 == ((v >> 32) & 0xff) as u8,
                b5 == ((v >> 40) & 0xff) as u8,
                b6 == ((v >> 48) & 0xff) as u8,
                b7 == ((v >> 56) & 0xff) as u8,
        ;
    }

    fn size() -> (r: usize) {
        8
    }

    fn align() -> (r: usize) {
        8
    }

    fn encode(&self) -> (r: Vec<u8>) {
        let v = *self;
        let mut out: Vec<u8> = Vec::new();
        out.push((v & 0xff) as u8);
        out.push(((v >> 8) & 0xff) as u8);
        out.push(((v >> 16) & 0xff) as u8);
        out.push(((v >> 24) & 0xff) as u8);
        out.push(((v >> 32) & 0xff) as u8);
        out.push(((v >> 40) & 0xff) as u8);
        out.push(((v >> 48) & 0xff) as u8);
        out.push(((v >> 56) & 0xff) as u8);
        proof {
            assert(out@ =~= v.encode_spec());
        }
        out
    }

    fn decode(bytes: &Vec<u8>) -> (r: u64) {
        (bytes[0] as u64) | ((bytes[1] as u64) << 8) | ((bytes[2] as u64) << 16) | ((bytes[3]
            as u64) << 24) | ((bytes[4] as u64) << 32) | ((bytes[5] as u64) << 40) | ((bytes[6]
            as u64) << 48) | ((bytes[7] as u64) << 56)
    }
}

} // verus!
