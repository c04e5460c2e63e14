//! What the decoders of the wire format share.
use vstd::prelude::*;

verus! {

/// What decoding a value from the front of a byte buffer gives.
#[derive(Debug, PartialEq, Eq)]
pub enum Decoded<T> {
    /// A whole value was read from the first `consumed` bytes.
    Done { consumed: usize, value: T },
    /// The bytes begin a value of this kind, but end before it does.
    Incomplete,
    /// The bytes cannot begin a value of this kind.
    Invalid,
}

impl<T: View> View for Decoded<T> {
    type V = Decoded<T::V>;

    open spec fn view(&self) -> Decoded<T::V> {
        match self {
            Decoded::Done { consumed, value } => Decoded::Done { consumed: *consumed, value: value@ },
            Decoded::Incomplete => Decoded::Incomplete,
            Decoded::Invalid => Decoded::Invalid,
        }
    }
}

/// A value with a wire form that can be decoded from a byte buffer holding
/// only part of it, and encoded, without any knowledge of the transport.
pub trait SansIo: Sized + View {
    /// What decoding a value from the front of `bytes` gives.
    spec fn decoded_from(bytes: Seq<u8>) -> Decoded<Self::V>;

    /// Whether a value has a wire form.
    spec fn encodable(v: Self::V) -> bool;

    /// The wire form of a value.
    spec fn encoded(v: Self::V) -> Seq<u8>;

    /// Decodes a value from the front of `bytes`.
    fn decode(bytes: &[u8]) -> (r: Decoded<Self>)
        ensures
            r@ == Self::decoded_from(bytes@),
    ;

    /// The wire form of the value.
    fn encode(&self) -> (r: Vec<u8>)
        requires
            Self::encodable(self@),
        ensures
            r@ == Self::encoded(self@),
    ;
}

/// `bytes` and `tag` agree on every position that both have: one is a prefix
/// of the other.
pub open spec fn agrees(bytes: Seq<u8>, tag: Seq<u8>) -> bool {
    forall|i: int| 0 <= i < bytes.len() && i < tag.len() ==> bytes[i] == tag[i]
}

/// Whether `bytes` and `tag` agree on every position that both have.
pub fn agrees_with(bytes: &[u8], tag: &[u8]) -> (r: bool)
    ensures
        r == agrees(bytes@, tag@),
{
    let mut i: usize = 0;
    while i < bytes.len() && i < tag.len()
        invariant
            forall|j: int| 0 <= j < i ==> bytes@[j] == tag@[j],
            i <= bytes.len(),
            i <= tag.len(),
        decreases bytes.len() - i,
    {
        if bytes[i] != tag[i] {
            return false;
        }
        i = i + 1;
    }
    true
}

/// The big-endian value of four bytes.
pub open spec fn be_u32(b0: u8, b1: u8, b2: u8, b3: u8) -> u32 {
    ((b0 as u32) << 24u32) | ((b1 as u32) << 16u32) | ((b2 as u32) << 8u32) | (b3 as u32)
}

/// The four big-endian bytes of `n`.
pub open spec fn be_bytes(n: u32) -> Seq<u8> {
    seq![(n >> 24u32) as u8, (n >> 16u32) as u8, (n >> 8u32) as u8, n as u8]
}

/// Reading the bytes of a number gives the number back.
pub proof fn lemma_be_round_trip(n: u32)
    ensures
        be_u32(be_bytes(n)[0], be_bytes(n)[1], be_bytes(n)[2], be_bytes(n)[3]) == n,
{
    assert(((((n >> 24u32) as u8) as u32) << 24u32) | ((((n >> 16u32) as u8) as u32) << 16u32)
        | ((((n >> 8u32) as u8) as u32) << 8u32) | ((n as u8) as u32) == n) by (bit_vector);
}

/// A big-endian value stays under 2^20 exactly when its first byte is zero and
/// its second under 16.
pub proof fn lemma_be_below_2_20(b0: u8, b1: u8, b2: u8, b3: u8)
    ensures
        (be_u32(b0, b1, b2, b3) < 0x10_0000u32) == (b0 == 0 && b1 < 16),
        (be_u32(b0, b1, b2, b3) == 0u32) == (b0 == 0 && b1 == 0 && b2 == 0 && b3 == 0),
{
    assert(((((b0 as u32) << 24u32) | ((b1 as u32) << 16u32) | ((b2 as u32) << 8u32) | (b3 as u32))
        < 0x10_0000u32) == (b0 == 0 && b1 < 16)) by (bit_vector);
    assert(((((b0 as u32) << 24u32) | ((b1 as u32) << 16u32) | ((b2 as u32) << 8u32) | (b3 as u32))
        == 0u32) == (b0 == 0 && b1 == 0 && b2 == 0 && b3 == 0)) by (bit_vector);
}

/// Appends `bytes` to the end of `buf`.
pub fn append_bytes(buf: &mut Vec<u8>, bytes: &[u8])
    ensures
        final(buf)@ == old(buf)@ + bytes@,
{
    let mut i: usize = 0;
    while i < bytes.len()
        invariant
            i <= bytes@.len(),
            buf@ == old(buf)@ + bytes@.subrange(0, i as int),
        decreases bytes.len() - i,
    {
        buf.push(bytes[i]);
        assert(bytes@.subrange(0, i + 1) == bytes@.subrange(0, i as int).push(bytes@[i as int]));
        i = i + 1;
    }
    assert(bytes@.subrange(0, bytes@.len() as int) == bytes@);
}

/// Copies the bytes from `from` up to `to` into a new vector.
pub fn copy_range(bytes: &[u8], from: usize, to: usize) -> (r: Vec<u8>)
    requires
        from <= to <= bytes@.len(),
    ensures
        r@ == bytes@.subrange(from as int, to as int),
{
    let mut out: Vec<u8> = Vec::with_capacity(to - from);
    let mut i: usize = from;
    while i < to
        invariant
            from <= i <= to,
            to <= bytes@.len(),
            out@ == bytes@.subrange(from as int, i as int),
        decreases to - i,
    {
        out.push(bytes[i]);
        assert(bytes@.subrange(from as int, i + 1) == bytes@.subrange(from as int, i as int).push(
            bytes@[i as int],
        ));
        i = i + 1;
    }
    out
}

/// Copies the 20 bytes from `start` into an array.
pub fn take_20(bytes: &[u8], start: usize) -> (r: [u8; 20])
    requires
        start + 20 <= bytes@.len(),
    ensures
        r@ == bytes@.subrange(start as int, start + 20),
{
    let mut out = [0u8; 20];
    let mut i: usize = 0;
    while i < 20
        invariant
            i <= 20,
            start + 20 <= bytes.len(),
            out@.len() == 20,
            forall|j: int| 0 <= j < i ==> out@[j] == bytes@[start + j],
        decreases 20 - i,
    {
        out[i] = bytes[start + i];
        i = i + 1;
    }
    assert(out@ == bytes@.subrange(start as int, start + 20));
    out
}

} // verus!
