//! Parameter types: newtypes of integers and of pairs and triplets of integers, which are
//! written in network (big) endian byte order.
use vstd::prelude::*;
use crate::bytes::ByteConversionError;
use crate::mode::{be_u16, be_u32, u16_be_bytes, u32_be_bytes};

verus! {

/// Objects which can be written in network (big) endian byte order.
pub trait WritableToBeBytes {
    fn written_len(&self) -> usize;

    /// Writes the object to a raw buffer in network endianness (big).
    fn write_to_be_bytes(&self, buf: &mut [u8]) -> Result<usize, ByteConversionError>;

    /// The bytes of the object in a vector of its written length.
    fn to_vec(&self) -> Result<Vec<u8>, ByteConversionError> {
        let mut vec = vec![0u8; self.written_len()];
        match self.write_to_be_bytes(vec.as_mut_slice()) {
            Ok(_) => Ok(vec),
            Err(e) => Err(e),
        }
    }
}

/// The big-endian bytes of a [u8]: the byte itself.
pub open spec fn u8_be_bytes(v: u8) -> Seq<u8> {
    seq![v]
}

/// The big-endian bytes of a [u64]: those of its high half, then those of its low half.
pub open spec fn u64_be_bytes(v: u64) -> Seq<u8> {
    u32_be_bytes((v / 0x1_0000_0000) as u32) + u32_be_bytes((v % 0x1_0000_0000) as u32)
}

/// The big-endian bytes of an [i8]: its two's complement byte.
pub open spec fn i8_be_bytes(v: i8) -> Seq<u8> {
    u8_be_bytes(v as u8)
}

/// The big-endian bytes of an [i16]: those of its two's complement.
pub open spec fn i16_be_bytes(v: i16) -> Seq<u8> {
    u16_be_bytes(v as u16)
}

/// The big-endian bytes of an [i32]: those of its two's complement.
pub open spec fn i32_be_bytes(v: i32) -> Seq<u8> {
    u32_be_bytes(v as u32)
}

/// The big-endian bytes of an [i64]: those of its two's complement.
pub open spec fn i64_be_bytes(v: i64) -> Seq<u8> {
    u64_be_bytes(v as u64)
}

/// The [u8] at the start of a byte sequence.
pub open spec fn be_u8_of(s: Seq<u8>) -> u8 {
    s[0]
}

/// The big-endian [u16] at the start of a byte sequence.
pub open spec fn be_u16_of(s: Seq<u8>) -> u16 {
    be_u16(s[0], s[1])
}

/// The big-endian [u32] at the start of a byte sequence.
pub open spec fn be_u32_of(s: Seq<u8>) -> u32 {
    be_u32(s[0], s[1], s[2], s[3])
}

/// The big-endian [u64] at the start of a byte sequence: its high half from the first four
/// bytes, its low half from the next four.
pub open spec fn be_u64_of(s: Seq<u8>) -> u64 {
    (be_u32_of(s) as int * 0x1_0000_0000 + be_u32_of(s.skip(4)) as int) as u64
}

/// The [i8] whose two's complement is the byte at the start of a byte sequence.
pub open spec fn be_i8_of(s: Seq<u8>) -> i8 {
    be_u8_of(s) as i8
}

/// The [i16] whose two's complement is the big-endian [u16] at the start of a byte sequence.
pub open spec fn be_i16_of(s: Seq<u8>) -> i16 {
    be_u16_of(s) as i16
}

/// The [i32] whose two's complement is the big-endian [u32] at the start of a byte sequence.
pub open spec fn be_i32_of(s: Seq<u8>) -> i32 {
    be_u32_of(s) as i32
}

/// The [i64] whose two's complement is the big-endian [u64] at the start of a byte sequence.
pub open spec fn be_i64_of(s: Seq<u8>) -> i64 {
    be_u64_of(s) as i64
}

fn u8_to_be(v: u8) -> (r: [u8; 1])
    ensures
        r@ == u8_be_bytes(v),
{
    let r = [v];
    assert(r@ =~= u8_be_bytes(v));
    r
}

fn u16_to_be(v: u16) -> (r: [u8; 2])
    ensures
        r@ == u16_be_bytes(v),
{
    let b0: u8 = (v >> 8u16) as u8;
    let b1: u8 = (v & 0xffu16) as u8;
    assert((v >> 8u16) as u8 == (v / 0x100) as u8 && (v & 0xffu16) as u8 == (v % 0x100) as u8)
        by (bit_vector);
    let r = [b0, b1];
    assert(r@ =~= u16_be_bytes(v));
    r
}

fn u32_to_be(v: u32) -> (r: [u8; 4])
    ensures
        r@ == u32_be_bytes(v),
{
    let b0: u8 = (v >> 24u32) as u8;
    let b1: u8 = ((v >> 16u32) & 0xffu32) as u8;
    let b2: u8 = ((v >> 8u32) & 0xffu32) as u8;
    let b3: u8 = (v & 0xffu32) as u8;
    assert((v >> 24u32) as u8 == (v / 0x100_0000) as u8 && ((v >> 16u32) & 0xffu32) as u8 == ((v
        / 0x1_0000) % 0x100) as u8 && ((v >> 8u32) & 0xffu32) as u8 == ((v / 0x100) % 0x100) as u8
        && (v & 0xffu32) as u8 == (v % 0x100) as u8) by (bit_vector);
    let r = [b0, b1, b2, b3];
    assert(r@ =~= u32_be_bytes(v));
    r
}

fn u64_to_be(v: u64) -> (r: [u8; 8])
    ensures
        r@ == u64_be_bytes(v),
{
    let hi = u32_to_be((v >> 32u64) as u32);
    let lo = u32_to_be((v & 0xffff_ffffu64) as u32);
    assert(((v >> 32u64) as u32) == (v / 0x1_0000_0000) as u32 && ((v & 0xffff_ffffu64) as u32)
        == (v % 0x1_0000_0000) as u32) by (bit_vector);
    let r = [hi[0], hi[1], hi[2], hi[3], lo[0], lo[1], lo[2], lo[3]];
    assert(r@ =~= hi@ + lo@);
    r
}

fn i8_to_be(v: i8) -> (r: [u8; 1])
    ensures
        r@ == i8_be_bytes(v),
{
    u8_to_be(v as u8)
}

fn i16_to_be(v: i16) -> (r: [u8; 2])
    ensures
        r@ == i16_be_bytes(v),
{
    u16_to_be(v as u16)
}

fn i32_to_be(v: i32) -> (r: [u8; 4])
    ensures
        r@ == i32_be_bytes(v),
{
    u32_to_be(v as u32)
}

fn i64_to_be(v: i64) -> (r: [u8; 8])
    ensures
        r@ == i64_be_bytes(v),
{
    u64_to_be(v as u64)
}

fn be_u8_at(s: &[u8], k: usize) -> (r: u8)
    requires
        k + 1 <= s@.len() <= usize::MAX,
    ensures
        r == be_u8_of(s@.skip(k as int)),
{
    s[k]
}

fn be_u16_at(s: &[u8], k: usize) -> (r: u16)
    requires
        k + 2 <= s@.len() <= usize::MAX,
    ensures
        r == be_u16_of(s@.skip(k as int)),
{
    let b0: u8 = s[k];
    let b1: u8 = s[k + 1];
    assert(((b0 as u16) << 8u16) | (b1 as u16) == (b0 as int * 0x100 + b1 as int) as u16)
        by (bit_vector);
    ((b0 as u16) << 8u16) | (b1 as u16)
}

fn be_u32_at(s: &[u8], k: usize) -> (r: u32)
    requires
        k + 4 <= s@.len() <= usize::MAX,
    ensures
        r == be_u32_of(s@.skip(k as int)),
{
    let b0: u8 = s[k];
    let b1: u8 = s[k + 1];
    let b2: u8 = s[k + 2];
    let b3: u8 = s[k + 3];
    assert(((b0 as u32) << 24u32) | ((b1 as u32) << 16u32) | ((b2 as u32) << 8u32) | (b3 as u32)
        == (b0 as int * 0x100_0000 + b1 as int * 0x1_0000 + b2 as int * 0x100 + b3 as int) as u32)
        by (bit_vector);
    ((b0 as u32) << 24u32) | ((b1 as u32) << 16u32) | ((b2 as u32) << 8u32) | (b3 as u32)
}

fn be_u64_at(s: &[u8], k: usize) -> (r: u64)
    requires
        k + 8 <= s@.len() <= usize::MAX,
    ensures
        r == be_u64_of(s@.skip(k as int)),
{
    let hi: u32 = be_u32_at(s, k);
    let lo: u32 = be_u32_at(s, k + 4);
    assert(s@.skip(k + 4) =~= s@.skip(k as int).skip(4));
    assert(((hi as u64) << 32u64) | (lo as u64) == (hi as int * 0x1_0000_0000 + lo as int) as u64)
        by (bit_vector);
    ((hi as u64) << 32u64) | (lo as u64)
}

fn be_i8_at(s: &[u8], k: usize) -> (r: i8)
    requires
        k + 1 <= s@.len() <= usize::MAX,
    ensures
        r == be_i8_of(s@.skip(k as int)),
{
    be_u8_at(s, k) as i8
}

fn be_i16_at(s: &[u8], k: usize) -> (r: i16)
    requires
        k + 2 <= s@.len() <= usize::MAX,
    ensures
        r == be_i16_of(s@.skip(k as int)),
{
    be_u16_at(s, k) as i16
}

fn be_i32_at(s: &[u8], k: usize) -> (r: i32)
    requires
        k + 4 <= s@.len() <= usize::MAX,
    ensures
        r == be_i32_of(s@.skip(k as int)),
{
    be_u32_at(s, k) as i32
}

fn be_i64_at(s: &[u8], k: usize) -> (r: i64)
    requires
        k + 8 <= s@.len() <= usize::MAX,
    ensures
        r == be_i64_of(s@.skip(k as int)),
{
    be_u64_at(s, k) as i64
}

/// Writes `bytes` to the start of `buf`.
fn write_prefix(buf: &mut [u8], bytes: &[u8])
    requires
        bytes@.len() <= old(buf)@.len(),
    ensures
        final(buf)@ == bytes@ + old(buf)@.skip(bytes@.len() as int),
{
    let ghost orig = buf@;
    let mut i: usize = 0;
    while i < bytes.len()
        invariant
            i <= bytes@.len() <= orig.len(),
            buf@.len() == orig.len(),
            forall|k: int| 0 <= k < i ==> buf@[k] == bytes@[k],
            forall|k: int| i <= k < orig.len() ==> buf@[k] == orig[k],
        decreases bytes.len() - i,
    {
        buf[i] = bytes[i];
        i += 1;
    }
    assert(buf@ =~= bytes@ + orig.skip(bytes@.len() as int));
}

/// Reading a [u8] back from its big-endian bytes gives the same value.
proof fn lemma_u8_be_roundtrip(v: u8)
    ensures
        u8_be_bytes(v).len() == 1,
        be_u8_of(u8_be_bytes(v)) == v,
{
}

/// Reading a [u16] back from its big-endian bytes gives the same value.
proof fn lemma_u16_be_roundtrip(v: u16)
    ensures
        u16_be_bytes(v).len() == 2,
        be_u16_of(u16_be_bytes(v)) == v,
{
    assert(((v / 0x100) as u8) as int * 0x100 + ((v % 0x100) as u8) as int == v);
}

/// Reading a [u32] back from its big-endian bytes gives the same value.
proof fn lemma_u32_be_roundtrip(v: u32)
    ensures
        u32_be_bytes(v).len() == 4,
        be_u32_of(u32_be_bytes(v)) == v,
{
    assert(v as int == (v / 0x100_0000) * 0x100_0000 + ((v / 0x1_0000) % 0x100) * 0x1_0000 + ((v
        / 0x100) % 0x100) * 0x100 + v % 0x100);
}

/// Reading a [u64] back from its big-endian bytes gives the same value.
proof fn lemma_u64_be_roundtrip(v: u64)
    ensures
        u64_be_bytes(v).len() == 8,
        be_u64_of(u64_be_bytes(v)) == v,
{
    let hi = (v / 0x1_0000_0000) as u32;
    let lo = (v % 0x1_0000_0000) as u32;
    lemma_u32_be_roundtrip(hi);
    lemma_u32_be_roundtrip(lo);
    let s = u64_be_bytes(v);
    assert(s.skip(4) =~= u32_be_bytes(lo));
    assert(be_u32_of(s) == be_u32_of(u32_be_bytes(hi)));
}

/// Reading a [i8] back from its big-endian bytes gives the same value.
proof fn lemma_i8_be_roundtrip(v: i8)
    ensures
        i8_be_bytes(v).len() == 1,
        be_i8_of(i8_be_bytes(v)) == v,
{
    lemma_u8_be_roundtrip(v as u8);
    assert((v as u8) as i8 == v) by (bit_vector);
}

/// Reading a [i16] back from its big-endian bytes gives the same value.
proof fn lemma_i16_be_roundtrip(v: i16)
    ensures
        i16_be_bytes(v).len() == 2,
        be_i16_of(i16_be_bytes(v)) == v,
{
    lemma_u16_be_roundtrip(v as u16);
    assert((v as u16) as i16 == v) by (bit_vector);
}

/// Reading a [i32] back from its big-endian bytes gives the same value.
proof fn lemma_i32_be_roundtrip(v: i32)
    ensures
        i32_be_bytes(v).len() == 4,
        be_i32_of(i32_be_bytes(v)) == v,
{
    lemma_u32_be_roundtrip(v as u32);
    assert((v as u32) as i32 == v) by (bit_vector);
}

/// Reading a [i64] back from its big-endian bytes gives the same value.
proof fn lemma_i64_be_roundtrip(v: i64)
    ensures
        i64_be_bytes(v).len() == 8,
        be_i64_of(i64_be_bytes(v)) == v,
{
    lemma_u64_be_roundtrip(v as u64);
    assert((v as u64) as i64 == v) by (bit_vector);
}

/// Newtype of a [u8] parameter.
#[derive(Debug, Copy, Clone, PartialEq, Eq, Structural)]
pub struct U8(pub u8);

impl U8 {
    /// The big-endian bytes of the values, one after the other.
    pub open spec fn be_bytes_spec(self) -> Seq<u8> {
        u8_be_bytes(self.0)
    }

    /// The values read from the big-endian bytes at the start of a byte sequence.
    pub open spec fn from_be_spec(s: Seq<u8>) -> Self {
        U8(be_u8_of(s))
    }

    /// The big-endian bytes of the values, one after the other.
    pub fn to_be_bytes(&self) -> (r: [u8; 1])
        ensures
            r@ == self.be_bytes_spec(),
    {
        let b0 = u8_to_be(self.0);
        let r = [b0[0]];
        assert(r@ =~= b0@);
        r
    }
}

impl From<u8> for U8 {
    fn from(v: u8) -> (r: U8) {
        U8(v)
    }
}

impl vstd::std_specs::convert::FromSpecImpl<u8> for U8 {
    open spec fn obeys_from_spec() -> bool {
        true
    }

    open spec fn from_spec(v: u8) -> U8 {
        U8(v)
    }
}

impl WritableToBeBytes for U8 {
    fn written_len(&self) -> (r: usize)
        ensures
            r == 1,
    {
        1
    }

    fn write_to_be_bytes(&self, buf: &mut [u8]) -> (r: Result<usize, ByteConversionError>)
        ensures
            old(buf)@.len() < 1 ==> r == Err::<usize, ByteConversionError>(
                ByteConversionError::ToSliceTooSmall { found: old(buf)@.len() as usize, expected: 1 },
            ) && final(buf)@ == old(buf)@,
            old(buf)@.len() >= 1 ==> r == Ok::<usize, ByteConversionError>(1) && final(buf)@
                == self.be_bytes_spec() + old(buf)@.skip(1),
    {
        if buf.len() < 1 {
            return Err(ByteConversionError::ToSliceTooSmall { found: buf.len(), expected: 1 });
        }
        let bytes = self.to_be_bytes();
        write_prefix(buf, bytes.as_slice());
        Ok(1)
    }
}

impl<'a> TryFrom<&'a [u8]> for U8 {
    type Error = ByteConversionError;

    fn try_from(v: &'a [u8]) -> (r: Result<U8, ByteConversionError>) {
        if v.len() < 1 {
            return Err(ByteConversionError::FromSliceTooSmall { expected: 1, found: v.len() });
        }
        let x0 = be_u8_at(v, 0);
        proof {
            assert(v@.skip(0) =~= v@);
        }
        Ok(U8(x0))
    }
}

impl<'a> vstd::std_specs::convert::TryFromSpecImpl<&'a [u8]> for U8 {
    open spec fn obeys_try_from_spec() -> bool {
        true
    }

    open spec fn try_from_spec(v: &'a [u8]) -> Result<U8, ByteConversionError> {
        if v@.len() < 1 {
            Err(ByteConversionError::FromSliceTooSmall { expected: 1, found: v@.len() as usize })
        } else {
            Ok(U8::from_be_spec(v@))
        }
    }
}

/// Reading a [U8] back from the bytes it writes gives the same values.
pub proof fn law_u8_be_roundtrip(x: U8)
    ensures
        x.be_bytes_spec().len() == 1,
        U8::from_be_spec(x.be_bytes_spec()) == x,
{
    lemma_u8_be_roundtrip(x.0);
    let s = x.be_bytes_spec();
    assert(s.take(1) =~= u8_be_bytes(x.0));
}

/// A pair of [u8] parameters.
#[derive(Debug, Copy, Clone, PartialEq, Eq, Structural)]
pub struct U8Pair(pub u8, pub u8);

impl U8Pair {
    /// The big-endian bytes of the values, one after the other.
    pub open spec fn be_bytes_spec(self) -> Seq<u8> {
        u8_be_bytes(self.0) + u8_be_bytes(self.1)
    }

    /// The values read from the big-endian bytes at the start of a byte sequence.
    pub open spec fn from_be_spec(s: Seq<u8>) -> Self {
        U8Pair(be_u8_of(s), be_u8_of(s.skip(1)))
    }

    /// The big-endian bytes of the values, one after the other.
    pub fn to_be_bytes(&self) -> (r: [u8; 2])
        ensures
            r@ == self.be_bytes_spec(),
    {
        let b0 = u8_to_be(self.0);
        let b1 = u8_to_be(self.1);
        let r = [b0[0], b1[0]];
        assert(r@ =~= b0@ + b1@);
        r
    }
}

impl From<(u8, u8)> for U8Pair {
    fn from(v: (u8, u8)) -> (r: U8Pair) {
        U8Pair(v.0, v.1)
    }
}

impl vstd::std_specs::convert::FromSpecImpl<(u8, u8)> for U8Pair {
    open spec fn obeys_from_spec() -> bool {
        true
    }

    open spec fn from_spec(v: (u8, u8)) -> U8Pair {
        U8Pair(v.0, v.1)
    }
}

impl WritableToBeBytes for U8Pair {
    fn written_len(&self) -> (r: usize)
        ensures
            r == 2,
    {
        2
    }

    fn write_to_be_bytes(&self, buf: &mut [u8]) -> (r: Result<usize, ByteConversionError>)
        ensures
            old(buf)@.len() < 2 ==> r == Err::<usize, ByteConversionError>(
                ByteConversionError::ToSliceTooSmall { found: old(buf)@.len() as usize, expected: 2 },
            ) && final(buf)@ == old(buf)@,
            old(buf)@.len() >= 2 ==> r == Ok::<usize, ByteConversionError>(2) && final(buf)@
                == self.be_bytes_spec() + old(buf)@.skip(2),
    {
        if buf.len() < 2 {
            return Err(ByteConversionError::ToSliceTooSmall { found: buf.len(), expected: 2 });
        }
        let bytes = self.to_be_bytes();
        write_prefix(buf, bytes.as_slice());
        Ok(2)
    }
}

impl<'a> TryFrom<&'a [u8]> for U8Pair {
    type Error = ByteConversionError;

    fn try_from(v: &'a [u8]) -> (r: Result<U8Pair, ByteConversionError>) {
        if v.len() < 2 {
            return Err(ByteConversionError::FromSliceTooSmall { expected: 2, found: v.len() });
        }
        let x0 = be_u8_at(v, 0);
        let x1 = be_u8_at(v, 1);
        proof {
            assert(v@.skip(0) =~= v@);
        }
        Ok(U8Pair(x0, x1))
    }
}

impl<'a> vstd::std_specs::convert::TryFromSpecImpl<&'a [u8]> for U8Pair {
    open spec fn obeys_try_from_spec() -> bool {
        true
    }

    open spec fn try_from_spec(v: &'a [u8]) -> Result<U8Pair, ByteConversionError> {
        if v@.len() < 2 {
            Err(ByteConversionError::FromSliceTooSmall { expected: 2, found: v@.len() as usize })
        } else {
            Ok(U8Pair::from_be_spec(v@))
        }
    }
}

/// Reading a [U8Pair] back from the bytes it writes gives the same values.
pub proof fn law_u8pair_be_roundtrip(x: U8Pair)
    ensures
        x.be_bytes_spec().len() == 2,
        U8Pair::from_be_spec(x.be_bytes_spec()) == x,
{
    lemma_u8_be_roundtrip(x.0);
    lemma_u8_be_roundtrip(x.1);
    let s = x.be_bytes_spec();
    assert(s.take(1) =~= u8_be_bytes(x.0));
    assert(s.skip(1) =~= u8_be_bytes(x.1));
}

/// A triplet of [u8] parameters.
#[derive(Debug, Copy, Clone, PartialEq, Eq, Structural)]
pub struct U8Triplet(pub u8, pub u8, pub u8);

impl U8Triplet {
    /// The big-endian bytes of the values, one after the other.
    pub open spec fn be_bytes_spec(self) -> Seq<u8> {
        u8_be_bytes(self.0) + u8_be_bytes(self.1) + u8_be_bytes(self.2)
    }

    /// The values read from the big-endian bytes at the start of a byte sequence.
    pub open spec fn from_be_spec(s: Seq<u8>) -> Self {
        U8Triplet(be_u8_of(s), be_u8_of(s.skip(1)), be_u8_of(s.skip(2)))
    }

    /// The big-endian bytes of the values, one after the other.
    pub fn to_be_bytes(&self) -> (r: [u8; 3])
        ensures
            r@ == self.be_bytes_spec(),
    {
        let b0 = u8_to_be(self.0);
        let b1 = u8_to_be(self.1);
        let b2 = u8_to_be(self.2);
        let r = [b0[0], b1[0], b2[0]];
        assert(r@ =~= b0@ + b1@ + b2@);
        r
    }
}

impl From<(u8, u8, u8)> for U8Triplet {
    fn from(v: (u8, u8, u8)) -> (r: U8Triplet) {
        U8Triplet(v.0, v.1, v.2)
    }
}

impl vstd::std_specs::convert::FromSpecImpl<(u8, u8, u8)> for U8Triplet {
    open spec fn obeys_from_spec() -> bool {
        true
    }

    open spec fn from_spec(v: (u8, u8, u8)) -> U8Triplet {
        U8Triplet(v.0, v.1, v.2)
    }
}

impl WritableToBeBytes for U8Triplet {
    fn written_len(&self) -> (r: usize)
        ensures
            r == 3,
    {
        3
    }

    fn write_to_be_bytes(&self, buf: &mut [u8]) -> (r: Result<usize, ByteConversionError>)
        ensures
            old(buf)@.len() < 3 ==> r == Err::<usize, ByteConversionError>(
                ByteConversionError::ToSliceTooSmall { found: old(buf)@.len() as usize, expected: 3 },
            ) && final(buf)@ == old(buf)@,
            old(buf)@.len() >= 3 ==> r == Ok::<usize, ByteConversionError>(3) && final(buf)@
                == self.be_bytes_spec() + old(buf)@.skip(3),
    {
        if buf.len() < 3 {
            return Err(ByteConversionError::ToSliceTooSmall { found: buf.len(), expected: 3 });
        }
        let bytes = self.to_be_bytes();
        write_prefix(buf, bytes.as_slice());
        Ok(3)
    }
}

impl<'a> TryFrom<&'a [u8]> for U8Triplet {
    type Error = ByteConversionError;

    fn try_from(v: &'a [u8]) -> (r: Result<U8Triplet, ByteConversionError>) {
        if v.len() < 3 {
            return Err(ByteConversionError::FromSliceTooSmall { expected: 3, found: v.len() });
        }
        let x0 = be_u8_at(v, 0);
        let x1 = be_u8_at(v, 1);
        let x2 = be_u8_at(v, 2);
        proof {
            assert(v@.skip(0) =~= v@);
        }
        Ok(U8Triplet(x0, x1, x2))
    }
}

impl<'a> vstd::std_specs::convert::TryFromSpecImpl<&'a [u8]> for U8Triplet {
    open spec fn obeys_try_from_spec() -> bool {
        true
    }

    open spec fn try_from_spec(v: &'a [u8]) -> Result<U8Triplet, ByteConversionError> {
        if v@.len() < 3 {
            Err(ByteConversionError::FromSliceTooSmall { expected: 3, found: v@.len() as usize })
        } else {
            Ok(U8Triplet::from_be_spec(v@))
        }
    }
}

/// Reading a [U8Triplet] back from the bytes it writes gives the same values.
pub proof fn law_u8triplet_be_roundtrip(x: U8Triplet)
    ensures
        x.be_bytes_spec().len() == 3,
        U8Triplet::from_be_spec(x.be_bytes_spec()) == x,
{
    lemma_u8_be_roundtrip(x.0);
    lemma_u8_be_roundtrip(x.1);
    lemma_u8_be_roundtrip(x.2);
    let s = x.be_bytes_spec();
    assert(s.take(1) =~= u8_be_bytes(x.0));
    assert(s.skip(1) =~= u8_be_bytes(x.1) + u8_be_bytes(x.2));
    assert(s.skip(2) =~= u8_be_bytes(x.2));
}

/// Newtype of a [u16] parameter.
#[derive(Debug, Copy, Clone, PartialEq, Eq, Structural)]
pub struct U16(pub u16);

impl U16 {
    /// The big-endian bytes of the values, one after the other.
    pub open spec fn be_bytes_spec(self) -> Seq<u8> {
        u16_be_bytes(self.0)
    }

    /// The values read from the big-endian bytes at the start of a byte sequence.
    pub open spec fn from_be_spec(s: Seq<u8>) -> Self {
        U16(be_u16_of(s))
    }

    /// The big-endian bytes of the values, one after the other.
    pub fn to_be_bytes(&self) -> (r: [u8; 2])
        ensures
            r@ == self.be_bytes_spec(),
    {
        let b0 = u16_to_be(self.0);
        let r = [b0[0], b0[1]];
        assert(r@ =~= b0@);
        r
    }
}

impl From<u16> for U16 {
    fn from(v: u16) -> (r: U16) {
        U16(v)
    }
}

impl vstd::std_specs::convert::FromSpecImpl<u16> for U16 {
    open spec fn obeys_from_spec() -> bool {
        true
    }

    open spec fn from_spec(v: u16) -> U16 {
        U16(v)
    }
}

impl WritableToBeBytes for U16 {
    fn written_len(&self) -> (r: usize)
        ensures
            r == 2,
    {
        2
    }

    fn write_to_be_bytes(&self, buf: &mut [u8]) -> (r: Result<usize, ByteConversionError>)
        ensures
            old(buf)@.len() < 2 ==> r == Err::<usize, ByteConversionError>(
                ByteConversionError::ToSliceTooSmall { found: old(buf)@.len() as usize, expected: 2 },
            ) && final(buf)@ == old(buf)@,
            old(buf)@.len() >= 2 ==> r == Ok::<usize, ByteConversionError>(2) && final(buf)@
                == self.be_bytes_spec() + old(buf)@.skip(2),
    {
        if buf.len() < 2 {
            return Err(ByteConversionError::ToSliceTooSmall { found: buf.len(), expected: 2 });
        }
        let bytes = self.to_be_bytes();
        write_prefix(buf, bytes.as_slice());
        Ok(2)
    }
}

impl<'a> TryFrom<&'a [u8]> for U16 {
    type Error = ByteConversionError;

    fn try_from(v: &'a [u8]) -> (r: Result<U16, ByteConversionError>) {
        if v.len() < 2 {
            return Err(ByteConversionError::FromSliceTooSmall { expected: 2, found: v.len() });
        }
        let x0 = be_u16_at(v, 0);
        proof {
            assert(v@.skip(0) =~= v@);
        }
        Ok(U16(x0))
    }
}

impl<'a> vstd::std_specs::convert::TryFromSpecImpl<&'a [u8]> for U16 {
    open spec fn obeys_try_from_spec() -> bool {
        true
    }

    open spec fn try_from_spec(v: &'a [u8]) -> Result<U16, ByteConversionError> {
        if v@.len() < 2 {
            Err(ByteConversionError::FromSliceTooSmall { expected: 2, found: v@.len() as usize })
        } else {
            Ok(U16::from_be_spec(v@))
        }
    }
}

/// Reading a [U16] back from the bytes it writes gives the same values.
pub proof fn law_u16_be_roundtrip(x: U16)
    ensures
        x.be_bytes_spec().len() == 2,
        U16::from_be_spec(x.be_bytes_spec()) == x,
{
    lemma_u16_be_roundtrip(x.0);
    let s = x.be_bytes_spec();
    assert(s.take(2) =~= u16_be_bytes(x.0));
}

/// A pair of [u16] parameters.
#[derive(Debug, Copy, Clone, PartialEq, Eq, Structural)]
pub struct U16Pair(pub u16, pub u16);

impl U16Pair {
    /// The big-endian bytes of the values, one after the other.
    pub open spec fn be_bytes_spec(self) -> Seq<u8> {
        u16_be_bytes(self.0) + u16_be_bytes(self.1)
    }

    /// The values read from the big-endian bytes at the start of a byte sequence.
    pub open spec fn from_be_spec(s: Seq<u8>) -> Self {
        U16Pair(be_u16_of(s), be_u16_of(s.skip(2)))
    }

    /// The big-endian bytes of the values, one after the other.
    pub fn to_be_bytes(&self) -> (r: [u8; 4])
        ensures
            r@ == self.be_bytes_spec(),
    {
        let b0 = u16_to_be(self.0);
        let b1 = u16_to_be(self.1);
        let r = [b0[0], b0[1], b1[0], b1[1]];
        assert(r@ =~= b0@ + b1@);
        r
    }
}

impl From<(u16, u16)> for U16Pair {
    fn from(v: (u16, u16)) -> (r: U16Pair) {
        U16Pair(v.0, v.1)
    }
}

impl vstd::std_specs::convert::FromSpecImpl<(u16, u16)> for U16Pair {
    open spec fn obeys_from_spec() -> bool {
        true
    }

    open spec fn from_spec(v: (u16, u16)) -> U16Pair {
        U16Pair(v.0, v.1)
    }
}

impl WritableToBeBytes for U16Pair {
    fn written_len(&self) -> (r: usize)
        ensures
            r == 4,
    {
        4
    }

    fn write_to_be_bytes(&self, buf: &mut [u8]) -> (r: Result<usize, ByteConversionError>)
        ensures
            old(buf)@.len() < 4 ==> r == Err::<usize, ByteConversionError>(
                ByteConversionError::ToSliceTooSmall { found: old(buf)@.len() as usize, expected: 4 },
            ) && final(buf)@ == old(buf)@,
            old(buf)@.len() >= 4 ==> r == Ok::<usize, ByteConversionError>(4) && final(buf)@
                == self.be_bytes_spec() + old(buf)@.skip(4),
    {
        if buf.len() < 4 {
            return Err(ByteConversionError::ToSliceTooSmall { found: buf.len(), expected: 4 });
        }
        let bytes = self.to_be_bytes();
        write_prefix(buf, bytes.as_slice());
        Ok(4)
    }
}

impl<'a> TryFrom<&'a [u8]> for U16Pair {
    type Error = ByteConversionError;

    fn try_from(v: &'a [u8]) -> (r: Result<U16Pair, ByteConversionError>) {
        if v.len() < 4 {
            return Err(ByteConversionError::FromSliceTooSmall { expected: 4, found: v.len() });
        }
        let x0 = be_u16_at(v, 0);
        let x1 = be_u16_at(v, 2);
        proof {
            assert(v@.skip(0) =~= v@);
        }
        Ok(U16Pair(x0, x1))
    }
}

impl<'a> vstd::std_specs::convert::TryFromSpecImpl<&'a [u8]> for U16Pair {
    open spec fn obeys_try_from_spec() -> bool {
        true
    }

    open spec fn try_from_spec(v: &'a [u8]) -> Result<U16Pair, ByteConversionError> {
        if v@.len() < 4 {
            Err(ByteConversionError::FromSliceTooSmall { expected: 4, found: v@.len() as usize })
        } else {
            Ok(U16Pair::from_be_spec(v@))
        }
    }
}

/// Reading a [U16Pair] back from the bytes it writes gives the same values.
pub proof fn law_u16pair_be_roundtrip(x: U16Pair)
    ensures
        x.be_bytes_spec().len() == 4,
        U16Pair::from_be_spec(x.be_bytes_spec()) == x,
{
    lemma_u16_be_roundtrip(x.0);
    lemma_u16_be_roundtrip(x.1);
    let s = x.be_bytes_spec();
    assert(s.take(2) =~= u16_be_bytes(x.0));
    assert(s.skip(2) =~= u16_be_bytes(x.1));
}

/// A triplet of [u16] parameters.
#[derive(Debug, Copy, Clone, PartialEq, Eq, Structural)]
pub struct U16Triplet(pub u16, pub u16, pub u16);

impl U16Triplet {
    /// The big-endian bytes of the values, one after the other.
    pub open spec fn be_bytes_spec(self) -> Seq<u8> {
        u16_be_bytes(self.0) + u16_be_bytes(self.1) + u16_be_bytes(self.2)
    }

    /// The values read from the big-endian bytes at the start of a byte sequence.
    pub open spec fn from_be_spec(s: Seq<u8>) -> Self {
        U16Triplet(be_u16_of(s), be_u16_of(s.skip(2)), be_u16_of(s.skip(4)))
    }

    /// The big-endian bytes of the values, one after the other.
    pub fn to_be_bytes(&self) -> (r: [u8; 6])
        ensures
            r@ == self.be_bytes_spec(),
    {
        let b0 = u16_to_be(self.0);
        let b1 = u16_to_be(self.1);
        let b2 = u16_to_be(self.2);
        let r = [b0[0], b0[1], b1[0], b1[1], b2[0], b2[1]];
        assert(r@ =~= b0@ + b1@ + b2@);
        r
    }
}

impl From<(u16, u16, u16)> for U16Triplet {
    fn from(v: (u16, u16, u16)) -> (r: U16Triplet) {
        U16Triplet(v.0, v.1, v.2)
    }
}

impl vstd::std_specs::convert::FromSpecImpl<(u16, u16, u16)> for U16Triplet {
    open spec fn obeys_from_spec() -> bool {
        true
    }

    open spec fn from_spec(v: (u16, u16, u16)) -> U16Triplet {
        U16Triplet(v.0, v.1, v.2)
    }
}

impl WritableToBeBytes for U16Triplet {
    fn written_len(&self) -> (r: usize)
        ensures
            r == 6,
    {
        6
    }

    fn write_to_be_bytes(&self, buf: &mut [u8]) -> (r: Result<usize, ByteConversionError>)
        ensures
            old(buf)@.len() < 6 ==> r == Err::<usize, ByteConversionError>(
                ByteConversionError::ToSliceTooSmall { found: old(buf)@.len() as usize, expected: 6 },
            ) && final(buf)@ == old(buf)@,
            old(buf)@.len() >= 6 ==> r == Ok::<usize, ByteConversionError>(6) && final(buf)@
                == self.be_bytes_spec() + old(buf)@.skip(6),
    {
        if buf.len() < 6 {
            return Err(ByteConversionError::ToSliceTooSmall { found: buf.len(), expected: 6 });
        }
        let bytes = self.to_be_bytes();
        write_prefix(buf, bytes.as_slice());
        Ok(6)
    }
}

impl<'a> TryFrom<&'a [u8]> for U16Triplet {
    type Error = ByteConversionError;

    fn try_from(v: &'a [u8]) -> (r: Result<U16Triplet, ByteConversionError>) {
        if v.len() < 6 {
            return Err(ByteConversionError::FromSliceTooSmall { expected: 6, found: v.len() });
        }
        let x0 = be_u16_at(v, 0);
        let x1 = be_u16_at(v, 2);
        let x2 = be_u16_at(v, 4);
        proof {
            assert(v@.skip(0) =~= v@);
        }
        Ok(U16Triplet(x0, x1, x2))
    }
}

impl<'a> vstd::std_specs::convert::TryFromSpecImpl<&'a [u8]> for U16Triplet {
    open spec fn obeys_try_from_spec() -> bool {
        true
    }

    open spec fn try_from_spec(v: &'a [u8]) -> Result<U16Triplet, ByteConversionError> {
        if v@.len() < 6 {
            Err(ByteConversionError::FromSliceTooSmall { expected: 6, found: v@.len() as usize })
        } else {
            Ok(U16Triplet::from_be_spec(v@))
        }
    }
}

/// Reading a [U16Triplet] back from the bytes it writes gives the same values.
pub proof fn law_u16triplet_be_roundtrip(x: U16Triplet)
    ensures
        x.be_bytes_spec().len() == 6,
        U16Triplet::from_be_spec(x.be_bytes_spec()) == x,
{
    lemma_u16_be_roundtrip(x.0);
    lemma_u16_be_roundtrip(x.1);
    lemma_u16_be_roundtrip(x.2);
    let s = x.be_bytes_spec();
    assert(s.take(2) =~= u16_be_bytes(x.0));
    assert(s.skip(2) =~= u16_be_bytes(x.1) + u16_be_bytes(x.2));
    assert(s.skip(4) =~= u16_be_bytes(x.2));
}

/// Newtype of a [u32] parameter.
#[derive(Debug, Copy, Clone, PartialEq, Eq, Structural)]
pub struct U32(pub u32);

impl U32 {
    /// The big-endian bytes of the values, one after the other.
    pub open spec fn be_bytes_spec(self) -> Seq<u8> {
        u32_be_bytes(self.0)
    }

    /// The values read from the big-endian bytes at the start of a byte sequence.
    pub open spec fn from_be_spec(s: Seq<u8>) -> Self {
        U32(be_u32_of(s))
    }

    /// The big-endian bytes of the values, one after the other.
    pub fn to_be_bytes(&self) -> (r: [u8; 4])
        ensures
            r@ == self.be_bytes_spec(),
    {
        let b0 = u32_to_be(self.0);
        let r = [b0[0], b0[1], b0[2], b0[3]];
        assert(r@ =~= b0@);
        r
    }
}

impl From<u32> for U32 {
    fn from(v: u32) -> (r: U32) {
        U32(v)
    }
}

impl vstd::std_specs::convert::FromSpecImpl<u32> for U32 {
    open spec fn obeys_from_spec() -> bool {
        true
    }

    open spec fn from_spec(v: u32) -> U32 {
        U32(v)
    }
}

impl WritableToBeBytes for U32 {
    fn written_len(&self) -> (r: usize)
        ensures
            r == 4,
    {
        4
    }

    fn write_to_be_bytes(&self, buf: &mut [u8]) -> (r: Result<usize, ByteConversionError>)
        ensures
            old(buf)@.len() < 4 ==> r == Err::<usize, ByteConversionError>(
                ByteConversionError::ToSliceTooSmall { found: old(buf)@.len() as usize, expected: 4 },
            ) && final(buf)@ == old(buf)@,
            old(buf)@.len() >= 4 ==> r == Ok::<usize, ByteConversionError>(4) && final(buf)@
                == self.be_bytes_spec() + old(buf)@.skip(4),
    {
        if buf.len() < 4 {
            return Err(ByteConversionError::ToSliceTooSmall { found: buf.len(), expected: 4 });
        }
        let bytes = self.to_be_bytes();
        write_prefix(buf, bytes.as_slice());
        Ok(4)
    }
}

impl<'a> TryFrom<&'a [u8]> for U32 {
    type Error = ByteConversionError;

    fn try_from(v: &'a [u8]) -> (r: Result<U32, ByteConversionError>) {
        if v.len() < 4 {
            return Err(ByteConversionError::FromSliceTooSmall { expected: 4, found: v.len() });
        }
        let x0 = be_u32_at(v, 0);
        proof {
            assert(v@.skip(0) =~= v@);
        }
        Ok(U32(x0))
    }
}

impl<'a> vstd::std_specs::convert::TryFromSpecImpl<&'a [u8]> for U32 {
    open spec fn obeys_try_from_spec() -> bool {
        true
    }

    open spec fn try_from_spec(v: &'a [u8]) -> Result<U32, ByteConversionError> {
        if v@.len() < 4 {
            Err(ByteConversionError::FromSliceTooSmall { expected: 4, found: v@.len() as usize })
        } else {
            Ok(U32::from_be_spec(v@))
        }
    }
}

/// Reading a [U32] back from the bytes it writes gives the same values.
pub proof fn law_u32_be_roundtrip(x: U32)
    ensures
        x.be_bytes_spec().len() == 4,
        U32::from_be_spec(x.be_bytes_spec()) == x,
{
    lemma_u32_be_roundtrip(x.0);
    let s = x.be_bytes_spec();
    assert(s.take(4) =~= u32_be_bytes(x.0));
}

/// A pair of [u32] parameters.
#[derive(Debug, Copy, Clone, PartialEq, Eq, Structural)]
pub struct U32Pair(pub u32, pub u32);

impl U32Pair {
    /// The big-endian bytes of the values, one after the other.
    pub open spec fn be_bytes_spec(self) -> Seq<u8> {
        u32_be_bytes(self.0) + u32_be_bytes(self.1)
    }

    /// The values read from the big-endian bytes at the start of a byte sequence.
    pub open spec fn from_be_spec(s: Seq<u8>) -> Self {
        U32Pair(be_u32_of(s), be_u32_of(s.skip(4)))
    }

    /// The big-endian bytes of the values, one after the other.
    pub fn to_be_bytes(&self) -> (r: [u8; 8])
        ensures
            r@ == self.be_bytes_spec(),
    {
        let b0 = u32_to_be(self.0);
        let b1 = u32_to_be(self.1);
        let r = [b0[0], b0[1], b0[2], b0[3], b1[0], b1[1], b1[2], b1[3]];
        assert(r@ =~= b0@ + b1@);
        r
    }
}

impl From<(u32, u32)> for U32Pair {
    fn from(v: (u32, u32)) -> (r: U32Pair) {
        U32Pair(v.0, v.1)
    }
}

impl vstd::std_specs::convert::FromSpecImpl<(u32, u32)> for U32Pair {
    open spec fn obeys_from_spec() -> bool {
        true
    }

    open spec fn from_spec(v: (u32, u32)) -> U32Pair {
        U32Pair(v.0, v.1)
    }
}

impl WritableToBeBytes for U32Pair {
    fn written_len(&self) -> (r: usize)
        ensures
            r == 8,
    {
        8
    }

    fn write_to_be_bytes(&self, buf: &mut [u8]) -> (r: Result<usize, ByteConversionError>)
        ensures
            old(buf)@.len() < 8 ==> r == Err::<usize, ByteConversionError>(
                ByteConversionError::ToSliceTooSmall { found: old(buf)@.len() as usize, expected: 8 },
            ) && final(buf)@ == old(buf)@,
            old(buf)@.len() >= 8 ==> r == Ok::<usize, ByteConversionError>(8) && final(buf)@
                == self.be_bytes_spec() + old(buf)@.skip(8),
    {
        if buf.len() < 8 {
            return Err(ByteConversionError::ToSliceTooSmall { found: buf.len(), expected: 8 });
        }
        let bytes = self.to_be_bytes();
        write_prefix(buf, bytes.as_slice());
        Ok(8)
    }
}

impl<'a> TryFrom<&'a [u8]> for U32Pair {
    type Error = ByteConversionError;

    fn try_from(v: &'a [u8]) -> (r: Result<U32Pair, ByteConversionError>) {
        if v.len() < 8 {
            return Err(ByteConversionError::FromSliceTooSmall { expected: 8, found: v.len() });
        }
        let x0 = be_u32_at(v, 0);
        let x1 = be_u32_at(v, 4);
        proof {
            assert(v@.skip(0) =~= v@);
        }
        Ok(U32Pair(x0, x1))
    }
}

impl<'a> vstd::std_specs::convert::TryFromSpecImpl<&'a [u8]> for U32Pair {
    open spec fn obeys_try_from_spec() -> bool {
        true
    }

    open spec fn try_from_spec(v: &'a [u8]) -> Result<U32Pair, ByteConversionError> {
        if v@.len() < 8 {
            Err(ByteConversionError::FromSliceTooSmall { expected: 8, found: v@.len() as usize })
        } else {
            Ok(U32Pair::from_be_spec(v@))
        }
    }
}

/// Reading a [U32Pair] back from the bytes it writes gives the same values.
pub proof fn law_u32pair_be_roundtrip(x: U32Pair)
    ensures
        x.be_bytes_spec().len() == 8,
        U32Pair::from_be_spec(x.be_bytes_spec()) == x,
{
    lemma_u32_be_roundtrip(x.0);
    lemma_u32_be_roundtrip(x.1);
    let s = x.be_bytes_spec();
    assert(s.take(4) =~= u32_be_bytes(x.0));
    assert(s.skip(4) =~= u32_be_bytes(x.1));
}

/// A triplet of [u32] parameters.
#[derive(Debug, Copy, Clone, PartialEq, Eq, Structural)]
pub struct U32Triplet(pub u32, pub u32, pub u32);

impl U32Triplet {
    /// The big-endian bytes of the values, one after the other.
    pub open spec fn be_bytes_spec(self) -> Seq<u8> {
        u32_be_bytes(self.0) + u32_be_bytes(self.1) + u32_be_bytes(self.2)
    }

    /// The values read from the big-endian bytes at the start of a byte sequence.
    pub open spec fn from_be_spec(s: Seq<u8>) -> Self {
        U32Triplet(be_u32_of(s), be_u32_of(s.skip(4)), be_u32_of(s.skip(8)))
    }

    /// The big-endian bytes of the values, one after the other.
    pub fn to_be_bytes(&self) -> (r: [u8; 12])
        ensures
            r@ == self.be_bytes_spec(),
    {
        let b0 = u32_to_be(self.0);
        let b1 = u32_to_be(self.1);
        let b2 = u32_to_be(self.2);
        let r = [b0[0], b0[1], b0[2], b0[3], b1[0], b1[1], b1[2], b1[3], b2[0], b2[1], b2[2], b2[3]];
        assert(r@ =~= b0@ + b1@ + b2@);
        r
    }
}

impl From<(u32, u32, u32)> for U32Triplet {
    fn from(v: (u32, u32, u32)) -> (r: U32Triplet) {
        U32Triplet(v.0, v.1, v.2)
    }
}

impl vstd::std_specs::convert::FromSpecImpl<(u32, u32, u32)> for U32Triplet {
    open spec fn obeys_from_spec() -> bool {
        true
    }

    open spec fn from_spec(v: (u32, u32, u32)) -> U32Triplet {
        U32Triplet(v.0, v.1, v.2)
    }
}

impl WritableToBeBytes for U32Triplet {
    fn written_len(&self) -> (r: usize)
        ensures
            r == 12,
    {
        12
    }

    fn write_to_be_bytes(&self, buf: &mut [u8]) -> (r: Result<usize, ByteConversionError>)
        ensures
            old(buf)@.len() < 12 ==> r == Err::<usize, ByteConversionError>(
                ByteConversionError::ToSliceTooSmall { found: old(buf)@.len() as usize, expected: 12 },
            ) && final(buf)@ == old(buf)@,
            old(buf)@.len() >= 12 ==> r == Ok::<usize, ByteConversionError>(12) && final(buf)@
                == self.be_bytes_spec() + old(buf)@.skip(12),
    {
        if buf.len() < 12 {
            return Err(ByteConversionError::ToSliceTooSmall { found: buf.len(), expected: 12 });
        }
        let bytes = self.to_be_bytes();
        write_prefix(buf, bytes.as_slice());
        Ok(12)
    }
}

impl<'a> TryFrom<&'a [u8]> for U32Triplet {
    type Error = ByteConversionError;

    fn try_from(v: &'a [u8]) -> (r: Result<U32Triplet, ByteConversionError>) {
        if v.len() < 12 {
            return Err(ByteConversionError::FromSliceTooSmall { expected: 12, found: v.len() });
        }
        let x0 = be_u32_at(v, 0);
        let x1 = be_u32_at(v, 4);
        let x2 = be_u32_at(v, 8);
        proof {
            assert(v@.skip(0) =~= v@);
        }
        Ok(U32Triplet(x0, x1, x2))
    }
}

impl<'a> vstd::std_specs::convert::TryFromSpecImpl<&'a [u8]> for U32Triplet {
    open spec fn obeys_try_from_spec() -> bool {
        true
    }

    open spec fn try_from_spec(v: &'a [u8]) -> Result<U32Triplet, ByteConversionError> {
        if v@.len() < 12 {
            Err(ByteConversionError::FromSliceTooSmall { expected: 12, found: v@.len() as usize })
        } else {
            Ok(U32Triplet::from_be_spec(v@))
        }
    }
}

/// Reading a [U32Triplet] back from the bytes it writes gives the same values.
pub proof fn law_u32triplet_be_roundtrip(x: U32Triplet)
    ensures
        x.be_bytes_spec().len() == 12,
        U32Triplet::from_be_spec(x.be_bytes_spec()) == x,
{
    lemma_u32_be_roundtrip(x.0);
    lemma_u32_be_roundtrip(x.1);
    lemma_u32_be_roundtrip(x.2);
    let s = x.be_bytes_spec();
    assert(s.take(4) =~= u32_be_bytes(x.0));
    assert(s.skip(4) =~= u32_be_bytes(x.1) + u32_be_bytes(x.2));
    assert(s.skip(8) =~= u32_be_bytes(x.2));
}

/// Newtype of a [u64] parameter.
#[derive(Debug, Copy, Clone, PartialEq, Eq, Structural)]
pub struct U64(pub u64);

impl U64 {
    /// The big-endian bytes of the values, one after the other.
    pub open spec fn be_bytes_spec(self) -> Seq<u8> {
        u64_be_bytes(self.0)
    }

    /// The values read from the big-endian bytes at the start of a byte sequence.
    pub open spec fn from_be_spec(s: Seq<u8>) -> Self {
        U64(be_u64_of(s))
    }

    /// The big-endian bytes of the values, one after the other.
    pub fn to_be_bytes(&self) -> (r: [u8; 8])
        ensures
            r@ == self.be_bytes_spec(),
    {
        let b0 = u64_to_be(self.0);
        let r = [b0[0], b0[1], b0[2], b0[3], b0[4], b0[5], b0[6], b0[7]];
        assert(r@ =~= b0@);
        r
    }
}

impl From<u64> for U64 {
    fn from(v: u64) -> (r: U64) {
        U64(v)
    }
}

impl vstd::std_specs::convert::FromSpecImpl<u64> for U64 {
    open spec fn obeys_from_spec() -> bool {
        true
    }

    open spec fn from_spec(v: u64) -> U64 {
        U64(v)
    }
}

impl WritableToBeBytes for U64 {
    fn written_len(&self) -> (r: usize)
        ensures
            r == 8,
    {
        8
    }

    fn write_to_be_bytes(&self, buf: &mut [u8]) -> (r: Result<usize, ByteConversionError>)
        ensures
            old(buf)@.len() < 8 ==> r == Err::<usize, ByteConversionError>(
                ByteConversionError::ToSliceTooSmall { found: old(buf)@.len() as usize, expected: 8 },
            ) && final(buf)@ == old(buf)@,
            old(buf)@.len() >= 8 ==> r == Ok::<usize, ByteConversionError>(8) && final(buf)@
                == self.be_bytes_spec() + old(buf)@.skip(8),
    {
        if buf.len() < 8 {
            return Err(ByteConversionError::ToSliceTooSmall { found: buf.len(), expected: 8 });
        }
        let bytes = self.to_be_bytes();
        write_prefix(buf, bytes.as_slice());
        Ok(8)
    }
}

impl<'a> TryFrom<&'a [u8]> for U64 {
    type Error = ByteConversionError;

    fn try_from(v: &'a [u8]) -> (r: Result<U64, ByteConversionError>) {
        if v.len() < 8 {
            return Err(ByteConversionError::FromSliceTooSmall { expected: 8, found: v.len() });
        }
        let x0 = be_u64_at(v, 0);
        proof {
            assert(v@.skip(0) =~= v@);
        }
        Ok(U64(x0))
    }
}

impl<'a> vstd::std_specs::convert::TryFromSpecImpl<&'a [u8]> for U64 {
    open spec fn obeys_try_from_spec() -> bool {
        true
    }

    open spec fn try_from_spec(v: &'a [u8]) -> Result<U64, ByteConversionError> {
        if v@.len() < 8 {
            Err(ByteConversionError::FromSliceTooSmall { expected: 8, found: v@.len() as usize })
        } else {
            Ok(U64::from_be_spec(v@))
        }
    }
}

/// Reading a [U64] back from the bytes it writes gives the same values.
pub proof fn law_u64_be_roundtrip(x: U64)
    ensures
        x.be_bytes_spec().len() == 8,
        U64::from_be_spec(x.be_bytes_spec()) == x,
{
    lemma_u64_be_roundtrip(x.0);
    let s = x.be_bytes_spec();
    assert(s.take(8) =~= u64_be_bytes(x.0));
}

/// A pair of [u64] parameters.
#[derive(Debug, Copy, Clone, PartialEq, Eq, Structural)]
pub struct U64Pair(pub u64, pub u64);

impl U64Pair {
    /// The big-endian bytes of the values, one after the other.
    pub open spec fn be_bytes_spec(self) -> Seq<u8> {
        u64_be_bytes(self.0) + u64_be_bytes(self.1)
    }

    /// The values read from the big-endian bytes at the start of a byte sequence.
    pub open spec fn from_be_spec(s: Seq<u8>) -> Self {
        U64Pair(be_u64_of(s), be_u64_of(s.skip(8)))
    }

    /// The big-endian bytes of the values, one after the other.
    pub fn to_be_bytes(&self) -> (r: [u8; 16])
        ensures
            r@ == self.be_bytes_spec(),
    {
        let b0 = u64_to_be(self.0);
        let b1 = u64_to_be(self.1);
        let r = [b0[0], b0[1], b0[2], b0[3], b0[4], b0[5], b0[6], b0[7], b1[0], b1[1], b1[2], b1[3], b1[4], b1[5], b1[6], b1[7]];
        assert(r@ =~= b0@ + b1@);
        r
    }
}

impl From<(u64, u64)> for U64Pair {
    fn from(v: (u64, u64)) -> (r: U64Pair) {
        U64Pair(v.0, v.1)
    }
}

impl vstd::std_specs::convert::FromSpecImpl<(u64, u64)> for U64Pair {
    open spec fn obeys_from_spec() -> bool {
        true
    }

    open spec fn from_spec(v: (u64, u64)) -> U64Pair {
        U64Pair(v.0, v.1)
    }
}

impl WritableToBeBytes for U64Pair {
    fn written_len(&self) -> (r: usize)
        ensures
            r == 16,
    {
        16
    }

    fn write_to_be_bytes(&self, buf: &mut [u8]) -> (r: Result<usize, ByteConversionError>)
        ensures
            old(buf)@.len() < 16 ==> r == Err::<usize, ByteConversionError>(
                ByteConversionError::ToSliceTooSmall { found: old(buf)@.len() as usize, expected: 16 },
            ) && final(buf)@ == old(buf)@,
            old(buf)@.len() >= 16 ==> r == Ok::<usize, ByteConversionError>(16) && final(buf)@
                == self.be_bytes_spec() + old(buf)@.skip(16),
    {
        if buf.len() < 16 {
            return Err(ByteConversionError::ToSliceTooSmall { found: buf.len(), expected: 16 });
        }
        let bytes = self.to_be_bytes();
        write_prefix(buf, bytes.as_slice());
        Ok(16)
    }
}

impl<'a> TryFrom<&'a [u8]> for U64Pair {
    type Error = ByteConversionError;

    fn try_from(v: &'a [u8]) -> (r: Result<U64Pair, ByteConversionError>) {
        if v.len() < 16 {
            return Err(ByteConversionError::FromSliceTooSmall { expected: 16, found: v.len() });
        }
        let x0 = be_u64_at(v, 0);
        let x1 = be_u64_at(v, 8);
        proof {
            assert(v@.skip(0) =~= v@);
        }
        Ok(U64Pair(x0, x1))
    }
}

impl<'a> vstd::std_specs::convert::TryFromSpecImpl<&'a [u8]> for U64Pair {
    open spec fn obeys_try_from_spec() -> bool {
        true
    }

    open spec fn try_from_spec(v: &'a [u8]) -> Result<U64Pair, ByteConversionError> {
        if v@.len() < 16 {
            Err(ByteConversionError::FromSliceTooSmall { expected: 16, found: v@.len() as usize })
        } else {
            Ok(U64Pair::from_be_spec(v@))
        }
    }
}

/// Reading a [U64Pair] back from the bytes it writes gives the same values.
pub proof fn law_u64pair_be_roundtrip(x: U64Pair)
    ensures
        x.be_bytes_spec().len() == 16,
        U64Pair::from_be_spec(x.be_bytes_spec()) == x,
{
    lemma_u64_be_roundtrip(x.0);
    lemma_u64_be_roundtrip(x.1);
    let s = x.be_bytes_spec();
    assert(s.take(8) =~= u64_be_bytes(x.0));
    assert(s.skip(8) =~= u64_be_bytes(x.1));
}

/// A triplet of [u64] parameters.
#[derive(Debug, Copy, Clone, PartialEq, Eq, Structural)]
pub struct U64Triplet(pub u64, pub u64, pub u64);

impl U64Triplet {
    /// The big-endian bytes of the values, one after the other.
    pub open spec fn be_bytes_spec(self) -> Seq<u8> {
        u64_be_bytes(self.0) + u64_be_bytes(self.1) + u64_be_bytes(self.2)
    }

    /// The values read from the big-endian bytes at the start of a byte sequence.
    pub open spec fn from_be_spec(s: Seq<u8>) -> Self {
        U64Triplet(be_u64_of(s), be_u64_of(s.skip(8)), be_u64_of(s.skip(16)))
    }

    /// The big-endian bytes of the values, one after the other.
    pub fn to_be_bytes(&self) -> (r: [u8; 24])
        ensures
            r@ == self.be_bytes_spec(),
    {
        let b0 = u64_to_be(self.0);
        let b1 = u64_to_be(self.1);
        let b2 = u64_to_be(self.2);
        let r = [b0[0], b0[1], b0[2], b0[3], b0[4], b0[5], b0[6], b0[7], b1[0], b1[1], b1[2], b1[3], b1[4], b1[5], b1[6], b1[7], b2[0], b2[1], b2[2], b2[3], b2[4], b2[5], b2[6], b2[7]];
        assert(r@ =~= b0@ + b1@ + b2@);
        r
    }
}

impl From<(u64, u64, u64)> for U64Triplet {
    fn from(v: (u64, u64, u64)) -> (r: U64Triplet) {
        U64Triplet(v.0, v.1, v.2)
    }
}

impl vstd::std_specs::convert::FromSpecImpl<(u64, u64, u64)> for U64Triplet {
    open spec fn obeys_from_spec() -> bool {
        true
    }

    open spec fn from_spec(v: (u64, u64, u64)) -> U64Triplet {
        U64Triplet(v.0, v.1, v.2)
    }
}

impl WritableToBeBytes for U64Triplet {
    fn written_len(&self) -> (r: usize)
        ensures
            r == 24,
    {
        24
    }

    fn write_to_be_bytes(&self, buf: &mut [u8]) -> (r: Result<usize, ByteConversionError>)
        ensures
            old(buf)@.len() < 24 ==> r == Err::<usize, ByteConversionError>(
                ByteConversionError::ToSliceTooSmall { found: old(buf)@.len() as usize, expected: 24 },
            ) && final(buf)@ == old(buf)@,
            old(buf)@.len() >= 24 ==> r == Ok::<usize, ByteConversionError>(24) && final(buf)@
                == self.be_bytes_spec() + old(buf)@.skip(24),
    {
        if buf.len() < 24 {
            return Err(ByteConversionError::ToSliceTooSmall { found: buf.len(), expected: 24 });
        }
        let bytes = self.to_be_bytes();
        write_prefix(buf, bytes.as_slice());
        Ok(24)
    }
}

impl<'a> TryFrom<&'a [u8]> for U64Triplet {
    type Error = ByteConversionError;

    fn try_from(v: &'a [u8]) -> (r: Result<U64Triplet, ByteConversionError>) {
        if v.len() < 24 {
            return Err(ByteConversionError::FromSliceTooSmall { expected: 24, found: v.len() });
        }
        let x0 = be_u64_at(v, 0);
        let x1 = be_u64_at(v, 8);
        let x2 = be_u64_at(v, 16);
        proof {
            assert(v@.skip(0) =~= v@);
        }
        Ok(U64Triplet(x0, x1, x2))
    }
}

impl<'a> vstd::std_specs::convert::TryFromSpecImpl<&'a [u8]> for U64Triplet {
    open spec fn obeys_try_from_spec() -> bool {
        true
    }

    open spec fn try_from_spec(v: &'a [u8]) -> Result<U64Triplet, ByteConversionError> {
        if v@.len() < 24 {
            Err(ByteConversionError::FromSliceTooSmall { expected: 24, found: v@.len() as usize })
        } else {
            Ok(U64Triplet::from_be_spec(v@))
        }
    }
}

/// Reading a [U64Triplet] back from the bytes it writes gives the same values.
pub proof fn law_u64triplet_be_roundtrip(x: U64Triplet)
    ensures
        x.be_bytes_spec().len() == 24,
        U64Triplet::from_be_spec(x.be_bytes_spec()) == x,
{
    lemma_u64_be_roundtrip(x.0);
    lemma_u64_be_roundtrip(x.1);
    lemma_u64_be_roundtrip(x.2);
    let s = x.be_bytes_spec();
    assert(s.take(8) =~= u64_be_bytes(x.0));
    assert(s.skip(8) =~= u64_be_bytes(x.1) + u64_be_bytes(x.2));
    assert(s.skip(16) =~= u64_be_bytes(x.2));
}

/// Newtype of a [i8] parameter.
#[derive(Debug, Copy, Clone, PartialEq, Eq, Structural)]
pub struct I8(pub i8);

impl I8 {
    /// The big-endian bytes of the values, one after the other.
    pub open spec fn be_bytes_spec(self) -> Seq<u8> {
        i8_be_bytes(self.0)
    }

    /// The values read from the big-endian bytes at the start of a byte sequence.
    pub open spec fn from_be_spec(s: Seq<u8>) -> Self {
        I8(be_i8_of(s))
    }

    /// The big-endian bytes of the values, one after the other.
    pub fn to_be_bytes(&self) -> (r: [u8; 1])
        ensures
            r@ == self.be_bytes_spec(),
    {
        let b0 = i8_to_be(self.0);
        let r = [b0[0]];
        assert(r@ =~= b0@);
        r
    }
}

impl From<i8> for I8 {
    fn from(v: i8) -> (r: I8) {
        I8(v)
    }
}

impl vstd::std_specs::convert::FromSpecImpl<i8> for I8 {
    open spec fn obeys_from_spec() -> bool {
        true
    }

    open spec fn from_spec(v: i8) -> I8 {
        I8(v)
    }
}

impl WritableToBeBytes for I8 {
    fn written_len(&self) -> (r: usize)
        ensures
            r == 1,
    {
        1
    }

    fn write_to_be_bytes(&self, buf: &mut [u8]) -> (r: Result<usize, ByteConversionError>)
        ensures
            old(buf)@.len() < 1 ==> r == Err::<usize, ByteConversionError>(
                ByteConversionError::ToSliceTooSmall { found: old(buf)@.len() as usize, expected: 1 },
            ) && final(buf)@ == old(buf)@,
            old(buf)@.len() >= 1 ==> r == Ok::<usize, ByteConversionError>(1) && final(buf)@
                == self.be_bytes_spec() + old(buf)@.skip(1),
    {
        if buf.len() < 1 {
            return Err(ByteConversionError::ToSliceTooSmall { found: buf.len(), expected: 1 });
        }
        let bytes = self.to_be_bytes();
        write_prefix(buf, bytes.as_slice());
        Ok(1)
    }
}

impl<'a> TryFrom<&'a [u8]> for I8 {
    type Error = ByteConversionError;

    fn try_from(v: &'a [u8]) -> (r: Result<I8, ByteConversionError>) {
        if v.len() < 1 {
            return Err(ByteConversionError::FromSliceTooSmall { expected: 1, found: v.len() });
        }
        let x0 = be_i8_at(v, 0);
        proof {
            assert(v@.skip(0) =~= v@);
        }
        Ok(I8(x0))
    }
}

impl<'a> vstd::std_specs::convert::TryFromSpecImpl<&'a [u8]> for I8 {
    open spec fn obeys_try_from_spec() -> bool {
        true
    }

    open spec fn try_from_spec(v: &'a [u8]) -> Result<I8, ByteConversionError> {
        if v@.len() < 1 {
            Err(ByteConversionError::FromSliceTooSmall { expected: 1, found: v@.len() as usize })
        } else {
            Ok(I8::from_be_spec(v@))
        }
    }
}

/// Reading a [I8] back from the bytes it writes gives the same values.
pub proof fn law_i8_be_roundtrip(x: I8)
    ensures
        x.be_bytes_spec().len() == 1,
        I8::from_be_spec(x.be_bytes_spec()) == x,
{
    lemma_i8_be_roundtrip(x.0);
    let s = x.be_bytes_spec();
    assert(s.take(1) =~= i8_be_bytes(x.0));
}

/// A pair of [i8] parameters.
#[derive(Debug, Copy, Clone, PartialEq, Eq, Structural)]
pub struct I8Pair(pub i8, pub i8);

impl I8Pair {
    /// The big-endian bytes of the values, one after the other.
    pub open spec fn be_bytes_spec(self) -> Seq<u8> {
        i8_be_bytes(self.0) + i8_be_bytes(self.1)
    }

    /// The values read from the big-endian bytes at the start of a byte sequence.
    pub open spec fn from_be_spec(s: Seq<u8>) -> Self {
        I8Pair(be_i8_of(s), be_i8_of(s.skip(1)))
    }

    /// The big-endian bytes of the values, one after the other.
    pub fn to_be_bytes(&self) -> (r: [u8; 2])
        ensures
            r@ == self.be_bytes_spec(),
    {
        let b0 = i8_to_be(self.0);
        let b1 = i8_to_be(self.1);
        let r = [b0[0], b1[0]];
        assert(r@ =~= b0@ + b1@);
        r
    }
}

impl From<(i8, i8)> for I8Pair {
    fn from(v: (i8, i8)) -> (r: I8Pair) {
        I8Pair(v.0, v.1)
    }
}

impl vstd::std_specs::convert::FromSpecImpl<(i8, i8)> for I8Pair {
    open spec fn obeys_from_spec() -> bool {
        true
    }

    open spec fn from_spec(v: (i8, i8)) -> I8Pair {
        I8Pair(v.0, v.1)
    }
}

impl WritableToBeBytes for I8Pair {
    fn written_len(&self) -> (r: usize)
        ensures
            r == 2,
    {
        2
    }

    fn write_to_be_bytes(&self, buf: &mut [u8]) -> (r: Result<usize, ByteConversionError>)
        ensures
            old(buf)@.len() < 2 ==> r == Err::<usize, ByteConversionError>(
                ByteConversionError::ToSliceTooSmall { found: old(buf)@.len() as usize, expected: 2 },
            ) && final(buf)@ == old(buf)@,
            old(buf)@.len() >= 2 ==> r == Ok::<usize, ByteConversionError>(2) && final(buf)@
                == self.be_bytes_spec() + old(buf)@.skip(2),
    {
        if buf.len() < 2 {
            return Err(ByteConversionError::ToSliceTooSmall { found: buf.len(), expected: 2 });
        }
        let bytes = self.to_be_bytes();
        write_prefix(buf, bytes.as_slice());
        Ok(2)
    }
}

impl<'a> TryFrom<&'a [u8]> for I8Pair {
    type Error = ByteConversionError;

    fn try_from(v: &'a [u8]) -> (r: Result<I8Pair, ByteConversionError>) {
        if v.len() < 2 {
            return Err(ByteConversionError::FromSliceTooSmall { expected: 2, found: v.len() });
        }
        let x0 = be_i8_at(v, 0);
        let x1 = be_i8_at(v, 1);
        proof {
            assert(v@.skip(0) =~= v@);
        }
        Ok(I8Pair(x0, x1))
    }
}

impl<'a> vstd::std_specs::convert::TryFromSpecImpl<&'a [u8]> for I8Pair {
    open spec fn obeys_try_from_spec() -> bool {
        true
    }

    open spec fn try_from_spec(v: &'a [u8]) -> Result<I8Pair, ByteConversionError> {
        if v@.len() < 2 {
            Err(ByteConversionError::FromSliceTooSmall { expected: 2, found: v@.len() as usize })
        } else {
            Ok(I8Pair::from_be_spec(v@))
        }
    }
}

/// Reading a [I8Pair] back from the bytes it writes gives the same values.
pub proof fn law_i8pair_be_roundtrip(x: I8Pair)
    ensures
        x.be_bytes_spec().len() == 2,
        I8Pair::from_be_spec(x.be_bytes_spec()) == x,
{
    lemma_i8_be_roundtrip(x.0);
    lemma_i8_be_roundtrip(x.1);
    let s = x.be_bytes_spec();
    assert(s.take(1) =~= i8_be_bytes(x.0));
    assert(s.skip(1) =~= i8_be_bytes(x.1));
}

/// A triplet of [i8] parameters.
#[derive(Debug, Copy, Clone, PartialEq, Eq, Structural)]
pub struct I8Triplet(pub i8, pub i8, pub i8);

impl I8Triplet {
    /// The big-endian bytes of the values, one after the other.
    pub open spec fn be_bytes_spec(self) -> Seq<u8> {
        i8_be_bytes(self.0) + i8_be_bytes(self.1) + i8_be_bytes(self.2)
    }

    /// The values read from the big-endian bytes at the start of a byte sequence.
    pub open spec fn from_be_spec(s: Seq<u8>) -> Self {
        I8Triplet(be_i8_of(s), be_i8_of(s.skip(1)), be_i8_of(s.skip(2)))
    }

    /// The big-endian bytes of the values, one after the other.
    pub fn to_be_bytes(&self) -> (r: [u8; 3])
        ensures
            r@ == self.be_bytes_spec(),
    {
        let b0 = i8_to_be(self.0);
        let b1 = i8_to_be(self.1);
        let b2 = i8_to_be(self.2);
        let r = [b0[0], b1[0], b2[0]];
        assert(r@ =~= b0@ + b1@ + b2@);
        r
    }
}

impl From<(i8, i8, i8)> for I8Triplet {
    fn from(v: (i8, i8, i8)) -> (r: I8Triplet) {
        I8Triplet(v.0, v.1, v.2)
    }
}

impl vstd::std_specs::convert::FromSpecImpl<(i8, i8, i8)> for I8Triplet {
    open spec fn obeys_from_spec() -> bool {
        true
    }

    open spec fn from_spec(v: (i8, i8, i8)) -> I8Triplet {
        I8Triplet(v.0, v.1, v.2)
    }
}

impl WritableToBeBytes for I8Triplet {
    fn written_len(&self) -> (r: usize)
        ensures
            r == 3,
    {
        3
    }

    fn write_to_be_bytes(&self, buf: &mut [u8]) -> (r: Result<usize, ByteConversionError>)
        ensures
            old(buf)@.len() < 3 ==> r == Err::<usize, ByteConversionError>(
                ByteConversionError::ToSliceTooSmall { found: old(buf)@.len() as usize, expected: 3 },
            ) && final(buf)@ == old(buf)@,
            old(buf)@.len() >= 3 ==> r == Ok::<usize, ByteConversionError>(3) && final(buf)@
                == self.be_bytes_spec() + old(buf)@.skip(3),
    {
        if buf.len() < 3 {
            return Err(ByteConversionError::ToSliceTooSmall { found: buf.len(), expected: 3 });
        }
        let bytes = self.to_be_bytes();
        write_prefix(buf, bytes.as_slice());
        Ok(3)
    }
}

impl<'a> TryFrom<&'a [u8]> for I8Triplet {
    type Error = ByteConversionError;

    fn try_from(v: &'a [u8]) -> (r: Result<I8Triplet, ByteConversionError>) {
        if v.len() < 3 {
            return Err(ByteConversionError::FromSliceTooSmall { expected: 3, found: v.len() });
        }
        let x0 = be_i8_at(v, 0);
        let x1 = be_i8_at(v, 1);
        let x2 = be_i8_at(v, 2);
        proof {
            assert(v@.skip(0) =~= v@);
        }
        Ok(I8Triplet(x0, x1, x2))
    }
}

impl<'a> vstd::std_specs::convert::TryFromSpecImpl<&'a [u8]> for I8Triplet {
    open spec fn obeys_try_from_spec() -> bool {
        true
    }

    open spec fn try_from_spec(v: &'a [u8]) -> Result<I8Triplet, ByteConversionError> {
        if v@.len() < 3 {
            Err(ByteConversionError::FromSliceTooSmall { expected: 3, found: v@.len() as usize })
        } else {
            Ok(I8Triplet::from_be_spec(v@))
        }
    }
}

/// Reading a [I8Triplet] back from the bytes it writes gives the same values.
pub proof fn law_i8triplet_be_roundtrip(x: I8Triplet)
    ensures
        x.be_bytes_spec().len() == 3,
        I8Triplet::from_be_spec(x.be_bytes_spec()) == x,
{
    lemma_i8_be_roundtrip(x.0);
    lemma_i8_be_roundtrip(x.1);
    lemma_i8_be_roundtrip(x.2);
    let s = x.be_bytes_spec();
    assert(s.take(1) =~= i8_be_bytes(x.0));
    assert(s.skip(1) =~= i8_be_bytes(x.1) + i8_be_bytes(x.2));
    assert(s.skip(2) =~= i8_be_bytes(x.2));
}

/// Newtype of a [i16] parameter.
#[derive(Debug, Copy, Clone, PartialEq, Eq, Structural)]
pub struct I16(pub i16);

impl I16 {
    /// The big-endian bytes of the values, one after the other.
    pub open spec fn be_bytes_spec(self) -> Seq<u8> {
        i16_be_bytes(self.0)
    }

    /// The values read from the big-endian bytes at the start of a byte sequence.
    pub open spec fn from_be_spec(s: Seq<u8>) -> Self {
        I16(be_i16_of(s))
    }

    /// The big-endian bytes of the values, one after the other.
    pub fn to_be_bytes(&self) -> (r: [u8; 2])
        ensures
            r@ == self.be_bytes_spec(),
    {
        let b0 = i16_to_be(self.0);
        let r = [b0[0], b0[1]];
        assert(r@ =~= b0@);
        r
    }
}

impl From<i16> for I16 {
    fn from(v: i16) -> (r: I16) {
        I16(v)
    }
}

impl vstd::std_specs::convert::FromSpecImpl<i16> for I16 {
    open spec fn obeys_from_spec() -> bool {
        true
    }

    open spec fn from_spec(v: i16) -> I16 {
        I16(v)
    }
}

impl WritableToBeBytes for I16 {
    fn written_len(&self) -> (r: usize)
        ensures
            r == 2,
    {
        2
    }

    fn write_to_be_bytes(&self, buf: &mut [u8]) -> (r: Result<usize, ByteConversionError>)
        ensures
            old(buf)@.len() < 2 ==> r == Err::<usize, ByteConversionError>(
                ByteConversionError::ToSliceTooSmall { found: old(buf)@.len() as usize, expected: 2 },
            ) && final(buf)@ == old(buf)@,
            old(buf)@.len() >= 2 ==> r == Ok::<usize, ByteConversionError>(2) && final(buf)@
                == self.be_bytes_spec() + old(buf)@.skip(2),
    {
        if buf.len() < 2 {
            return Err(ByteConversionError::ToSliceTooSmall { found: buf.len(), expected: 2 });
        }
        let bytes = self.to_be_bytes();
        write_prefix(buf, bytes.as_slice());
        Ok(2)
    }
}

impl<'a> TryFrom<&'a [u8]> for I16 {
    type Error = ByteConversionError;

    fn try_from(v: &'a [u8]) -> (r: Result<I16, ByteConversionError>) {
        if v.len() < 2 {
            return Err(ByteConversionError::FromSliceTooSmall { expected: 2, found: v.len() });
        }
        let x0 = be_i16_at(v, 0);
        proof {
            assert(v@.skip(0) =~= v@);
        }
        Ok(I16(x0))
    }
}

impl<'a> vstd::std_specs::convert::TryFromSpecImpl<&'a [u8]> for I16 {
    open spec fn obeys_try_from_spec() -> bool {
        true
    }

    open spec fn try_from_spec(v: &'a [u8]) -> Result<I16, ByteConversionError> {
        if v@.len() < 2 {
            Err(ByteConversionError::FromSliceTooSmall { expected: 2, found: v@.len() as usize })
        } else {
            Ok(I16::from_be_spec(v@))
        }
    }
}

/// Reading a [I16] back from the bytes it writes gives the same values.
pub proof fn law_i16_be_roundtrip(x: I16)
    ensures
        x.be_bytes_spec().len() == 2,
        I16::from_be_spec(x.be_bytes_spec()) == x,
{
    lemma_i16_be_roundtrip(x.0);
    let s = x.be_bytes_spec();
    assert(s.take(2) =~= i16_be_bytes(x.0));
}

/// A pair of [i16] parameters.
#[derive(Debug, Copy, Clone, PartialEq, Eq, Structural)]
pub struct I16Pair(pub i16, pub i16);

impl I16Pair {
    /// The big-endian bytes of the values, one after the other.
    pub open spec fn be_bytes_spec(self) -> Seq<u8> {
        i16_be_bytes(self.0) + i16_be_bytes(self.1)
    }

    /// The values read from the big-endian bytes at the start of a byte sequence.
    pub open spec fn from_be_spec(s: Seq<u8>) -> Self {
        I16Pair(be_i16_of(s), be_i16_of(s.skip(2)))
    }

    /// The big-endian bytes of the values, one after the other.
    pub fn to_be_bytes(&self) -> (r: [u8; 4])
        ensures
            r@ == self.be_bytes_spec(),
    {
        let b0 = i16_to_be(self.0);
        let b1 = i16_to_be(self.1);
        let r = [b0[0], b0[1], b1[0], b1[1]];
        assert(r@ =~= b0@ + b1@);
        r
    }
}

impl From<(i16, i16)> for I16Pair {
    fn from(v: (i16, i16)) -> (r: I16Pair) {
        I16Pair(v.0, v.1)
    }
}

impl vstd::std_specs::convert::FromSpecImpl<(i16, i16)> for I16Pair {
    open spec fn obeys_from_spec() -> bool {
        true
    }

    open spec fn from_spec(v: (i16, i16)) -> I16Pair {
        I16Pair(v.0, v.1)
    }
}

impl WritableToBeBytes for I16Pair {
    fn written_len(&self) -> (r: usize)
        ensures
            r == 4,
    {
        4
    }

    fn write_to_be_bytes(&self, buf: &mut [u8]) -> (r: Result<usize, ByteConversionError>)
        ensures
            old(buf)@.len() < 4 ==> r == Err::<usize, ByteConversionError>(
                ByteConversionError::ToSliceTooSmall { found: old(buf)@.len() as usize, expected: 4 },
            ) && final(buf)@ == old(buf)@,
            old(buf)@.len() >= 4 ==> r == Ok::<usize, ByteConversionError>(4) && final(buf)@
                == self.be_bytes_spec() + old(buf)@.skip(4),
    {
        if buf.len() < 4 {
            return Err(ByteConversionError::ToSliceTooSmall { found: buf.len(), expected: 4 });
        }
        let bytes = self.to_be_bytes();
        write_prefix(buf, bytes.as_slice());
        Ok(4)
    }
}

impl<'a> TryFrom<&'a [u8]> for I16Pair {
    type Error = ByteConversionError;

    fn try_from(v: &'a [u8]) -> (r: Result<I16Pair, ByteConversionError>) {
        if v.len() < 4 {
            return Err(ByteConversionError::FromSliceTooSmall { expected: 4, found: v.len() });
        }
        let x0 = be_i16_at(v, 0);
        let x1 = be_i16_at(v, 2);
        proof {
            assert(v@.skip(0) =~= v@);
        }
        Ok(I16Pair(x0, x1))
    }
}

impl<'a> vstd::std_specs::convert::TryFromSpecImpl<&'a [u8]> for I16Pair {
    open spec fn obeys_try_from_spec() -> bool {
        true
    }

    open spec fn try_from_spec(v: &'a [u8]) -> Result<I16Pair, ByteConversionError> {
        if v@.len() < 4 {
            Err(ByteConversionError::FromSliceTooSmall { expected: 4, found: v@.len() as usize })
        } else {
            Ok(I16Pair::from_be_spec(v@))
        }
    }
}

/// Reading a [I16Pair] back from the bytes it writes gives the same values.
pub proof fn law_i16pair_be_roundtrip(x: I16Pair)
    ensures
        x.be_bytes_spec().len() == 4,
        I16Pair::from_be_spec(x.be_bytes_spec()) == x,
{
    lemma_i16_be_roundtrip(x.0);
    lemma_i16_be_roundtrip(x.1);
    let s = x.be_bytes_spec();
    assert(s.take(2) =~= i16_be_bytes(x.0));
    assert(s.skip(2) =~= i16_be_bytes(x.1));
}

/// A triplet of [i16] parameters.
#[derive(Debug, Copy, Clone, PartialEq, Eq, Structural)]
pub struct I16Triplet(pub i16, pub i16, pub i16);

impl I16Triplet {
    /// The big-endian bytes of the values, one after the other.
    pub open spec fn be_bytes_spec(self) -> Seq<u8> {
        i16_be_bytes(self.0) + i16_be_bytes(self.1) + i16_be_bytes(self.2)
    }

    /// The values read from the big-endian bytes at the start of a byte sequence.
    pub open spec fn from_be_spec(s: Seq<u8>) -> Self {
        I16Triplet(be_i16_of(s), be_i16_of(s.skip(2)), be_i16_of(s.skip(4)))
    }

    /// The big-endian bytes of the values, one after the other.
    pub fn to_be_bytes(&self) -> (r: [u8; 6])
        ensures
            r@ == self.be_bytes_spec(),
    {
        let b0 = i16_to_be(self.0);
        let b1 = i16_to_be(self.1);
        let b2 = i16_to_be(self.2);
        let r = [b0[0], b0[1], b1[0], b1[1], b2[0], b2[1]];
        assert(r@ =~= b0@ + b1@ + b2@);
        r
    }
}

impl From<(i16, i16, i16)> for I16Triplet {
    fn from(v: (i16, i16, i16)) -> (r: I16Triplet) {
        I16Triplet(v.0, v.1, v.2)
    }
}

impl vstd::std_specs::convert::FromSpecImpl<(i16, i16, i16)> for I16Triplet {
    open spec fn obeys_from_spec() -> bool {
        true
    }

    open spec fn from_spec(v: (i16, i16, i16)) -> I16Triplet {
        I16Triplet(v.0, v.1, v.2)
    }
}

impl WritableToBeBytes for I16Triplet {
    fn written_len(&self) -> (r: usize)
        ensures
            r == 6,
    {
        6
    }

    fn write_to_be_bytes(&self, buf: &mut [u8]) -> (r: Result<usize, ByteConversionError>)
        ensures
            old(buf)@.len() < 6 ==> r == Err::<usize, ByteConversionError>(
                ByteConversionError::ToSliceTooSmall { found: old(buf)@.len() as usize, expected: 6 },
            ) && final(buf)@ == old(buf)@,
            old(buf)@.len() >= 6 ==> r == Ok::<usize, ByteConversionError>(6) && final(buf)@
                == self.be_bytes_spec() + old(buf)@.skip(6),
    {
        if buf.len() < 6 {
            return Err(ByteConversionError::ToSliceTooSmall { found: buf.len(), expected: 6 });
        }
        let bytes = self.to_be_bytes();
        write_prefix(buf, bytes.as_slice());
        Ok(6)
    }
}

impl<'a> TryFrom<&'a [u8]> for I16Triplet {
    type Error = ByteConversionError;

    fn try_from(v: &'a [u8]) -> (r: Result<I16Triplet, ByteConversionError>) {
        if v.len() < 6 {
            return Err(ByteConversionError::FromSliceTooSmall { expected: 6, found: v.len() });
        }
        let x0 = be_i16_at(v, 0);
        let x1 = be_i16_at(v, 2);
        let x2 = be_i16_at(v, 4);
        proof {
            assert(v@.skip(0) =~= v@);
        }
        Ok(I16Triplet(x0, x1, x2))
    }
}

impl<'a> vstd::std_specs::convert::TryFromSpecImpl<&'a [u8]> for I16Triplet {
    open spec fn obeys_try_from_spec() -> bool {
        true
    }

    open spec fn try_from_spec(v: &'a [u8]) -> Result<I16Triplet, ByteConversionError> {
        if v@.len() < 6 {
            Err(ByteConversionError::FromSliceTooSmall { expected: 6, found: v@.len() as usize })
        } else {
            Ok(I16Triplet::from_be_spec(v@))
        }
    }
}

/// Reading a [I16Triplet] back from the bytes it writes gives the same values.
pub proof fn law_i16triplet_be_roundtrip(x: I16Triplet)
    ensures
        x.be_bytes_spec().len() == 6,
        I16Triplet::from_be_spec(x.be_bytes_spec()) == x,
{
    lemma_i16_be_roundtrip(x.0);
    lemma_i16_be_roundtrip(x.1);
    lemma_i16_be_roundtrip(x.2);
    let s = x.be_bytes_spec();
    assert(s.take(2) =~= i16_be_bytes(x.0));
    assert(s.skip(2) =~= i16_be_bytes(x.1) + i16_be_bytes(x.2));
    assert(s.skip(4) =~= i16_be_bytes(x.2));
}

/// Newtype of a [i32] parameter.
#[derive(Debug, Copy, Clone, PartialEq, Eq, Structural)]
pub struct I32(pub i32);

impl I32 {
    /// The big-endian bytes of the values, one after the other.
    pub open spec fn be_bytes_spec(self) -> Seq<u8> {
        i32_be_bytes(self.0)
    }

    /// The values read from the big-endian bytes at the start of a byte sequence.
    pub open spec fn from_be_spec(s: Seq<u8>) -> Self {
        I32(be_i32_of(s))
    }

    /// The big-endian bytes of the values, one after the other.
    pub fn to_be_bytes(&self) -> (r: [u8; 4])
        ensures
            r@ == self.be_bytes_spec(),
    {
        let b0 = i32_to_be(self.0);
        let r = [b0[0], b0[1], b0[2], b0[3]];
        assert(r@ =~= b0@);
        r
    }
}

impl From<i32> for I32 {
    fn from(v: i32) -> (r: I32) {
        I32(v)
    }
}

impl vstd::std_specs::convert::FromSpecImpl<i32> for I32 {
    open spec fn obeys_from_spec() -> bool {
        true
    }

    open spec fn from_spec(v: i32) -> I32 {
        I32(v)
    }
}

impl WritableToBeBytes for I32 {
    fn written_len(&self) -> (r: usize)
        ensures
            r == 4,
    {
        4
    }

    fn write_to_be_bytes(&self, buf: &mut [u8]) -> (r: Result<usize, ByteConversionError>)
        ensures
            old(buf)@.len() < 4 ==> r == Err::<usize, ByteConversionError>(
                ByteConversionError::ToSliceTooSmall { found: old(buf)@.len() as usize, expected: 4 },
            ) && final(buf)@ == old(buf)@,
            old(buf)@.len() >= 4 ==> r == Ok::<usize, ByteConversionError>(4) && final(buf)@
                == self.be_bytes_spec() + old(buf)@.skip(4),
    {
        if buf.len() < 4 {
            return Err(ByteConversionError::ToSliceTooSmall { found: buf.len(), expected: 4 });
        }
        let bytes = self.to_be_bytes();
        write_prefix(buf, bytes.as_slice());
        Ok(4)
    }
}

impl<'a> TryFrom<&'a [u8]> for I32 {
    type Error = ByteConversionError;

    fn try_from(v: &'a [u8]) -> (r: Result<I32, ByteConversionError>) {
        if v.len() < 4 {
            return Err(ByteConversionError::FromSliceTooSmall { expected: 4, found: v.len() });
        }
        let x0 = be_i32_at(v, 0);
        proof {
            assert(v@.skip(0) =~= v@);
        }
        Ok(I32(x0))
    }
}

impl<'a> vstd::std_specs::convert::TryFromSpecImpl<&'a [u8]> for I32 {
    open spec fn obeys_try_from_spec() -> bool {
        true
    }

    open spec fn try_from_spec(v: &'a [u8]) -> Result<I32, ByteConversionError> {
        if v@.len() < 4 {
            Err(ByteConversionError::FromSliceTooSmall { expected: 4, found: v@.len() as usize })
        } else {
            Ok(I32::from_be_spec(v@))
        }
    }
}

/// Reading a [I32] back from the bytes it writes gives the same values.
pub proof fn law_i32_be_roundtrip(x: I32)
    ensures
        x.be_bytes_spec().len() == 4,
        I32::from_be_spec(x.be_bytes_spec()) == x,
{
    lemma_i32_be_roundtrip(x.0);
    let s = x.be_bytes_spec();
    assert(s.take(4) =~= i32_be_bytes(x.0));
}

/// A pair of [i32] parameters.
#[derive(Debug, Copy, Clone, PartialEq, Eq, Structural)]
pub struct I32Pair(pub i32, pub i32);

impl I32Pair {
    /// The big-endian bytes of the values, one after the other.
    pub open spec fn be_bytes_spec(self) -> Seq<u8> {
        i32_be_bytes(self.0) + i32_be_bytes(self.1)
    }

    /// The values read from the big-endian bytes at the start of a byte sequence.
    pub open spec fn from_be_spec(s: Seq<u8>) -> Self {
        I32Pair(be_i32_of(s), be_i32_of(s.skip(4)))
    }

    /// The big-endian bytes of the values, one after the other.
    pub fn to_be_bytes(&self) -> (r: [u8; 8])
        ensures
            r@ == self.be_bytes_spec(),
    {
        let b0 = i32_to_be(self.0);
        let b1 = i32_to_be(self.1);
        let r = [b0[0], b0[1], b0[2], b0[3], b1[0], b1[1], b1[2], b1[3]];
        assert(r@ =~= b0@ + b1@);
        r
    }
}

impl From<(i32, i32)> for I32Pair {
    fn from(v: (i32, i32)) -> (r: I32Pair) {
        I32Pair(v.0, v.1)
    }
}

impl vstd::std_specs::convert::FromSpecImpl<(i32, i32)> for I32Pair {
    open spec fn obeys_from_spec() -> bool {
        true
    }

    open spec fn from_spec(v: (i32, i32)) -> I32Pair {
        I32Pair(v.0, v.1)
    }
}

impl WritableToBeBytes for I32Pair {
    fn written_len(&self) -> (r: usize)
        ensures
            r == 8,
    {
        8
    }

    fn write_to_be_bytes(&self, buf: &mut [u8]) -> (r: Result<usize, ByteConversionError>)
        ensures
            old(buf)@.len() < 8 ==> r == Err::<usize, ByteConversionError>(
                ByteConversionError::ToSliceTooSmall { found: old(buf)@.len() as usize, expected: 8 },
            ) && final(buf)@ == old(buf)@,
            old(buf)@.len() >= 8 ==> r == Ok::<usize, ByteConversionError>(8) && final(buf)@
                == self.be_bytes_spec() + old(buf)@.skip(8),
    {
        if buf.len() < 8 {
            return Err(ByteConversionError::ToSliceTooSmall { found: buf.len(), expected: 8 });
        }
        let bytes = self.to_be_bytes();
        write_prefix(buf, bytes.as_slice());
        Ok(8)
    }
}

impl<'a> TryFrom<&'a [u8]> for I32Pair {
    type Error = ByteConversionError;

    fn try_from(v: &'a [u8]) -> (r: Result<I32Pair, ByteConversionError>) {
        if v.len() < 8 {
            return Err(ByteConversionError::FromSliceTooSmall { expected: 8, found: v.len() });
        }
        let x0 = be_i32_at(v, 0);
        let x1 = be_i32_at(v, 4);
        proof {
            assert(v@.skip(0) =~= v@);
        }
        Ok(I32Pair(x0, x1))
    }
}

impl<'a> vstd::std_specs::convert::TryFromSpecImpl<&'a [u8]> for I32Pair {
    open spec fn obeys_try_from_spec() -> bool {
        true
    }

    open spec fn try_from_spec(v: &'a [u8]) -> Result<I32Pair, ByteConversionError> {
        if v@.len() < 8 {
            Err(ByteConversionError::FromSliceTooSmall { expected: 8, found: v@.len() as usize })
        } else {
            Ok(I32Pair::from_be_spec(v@))
        }
    }
}

/// Reading a [I32Pair] back from the bytes it writes gives the same values.
pub proof fn law_i32pair_be_roundtrip(x: I32Pair)
    ensures
        x.be_bytes_spec().len() == 8,
        I32Pair::from_be_spec(x.be_bytes_spec()) == x,
{
    lemma_i32_be_roundtrip(x.0);
    lemma_i32_be_roundtrip(x.1);
    let s = x.be_bytes_spec();
    assert(s.take(4) =~= i32_be_bytes(x.0));
    assert(s.skip(4) =~= i32_be_bytes(x.1));
}

/// A triplet of [i32] parameters.
#[derive(Debug, Copy, Clone, PartialEq, Eq, Structural)]
pub struct I32Triplet(pub i32, pub i32, pub i32);

impl I32Triplet {
    /// The big-endian bytes of the values, one after the other.
    pub open spec fn be_bytes_spec(self) -> Seq<u8> {
        i32_be_bytes(self.0) + i32_be_bytes(self.1) + i32_be_bytes(self.2)
    }

    /// The values read from the big-endian bytes at the start of a byte sequence.
    pub open spec fn from_be_spec(s: Seq<u8>) -> Self {
        I32Triplet(be_i32_of(s), be_i32_of(s.skip(4)), be_i32_of(s.skip(8)))
    }

    /// The big-endian bytes of the values, one after the other.
    pub fn to_be_bytes(&self) -> (r: [u8; 12])
        ensures
            r@ == self.be_bytes_spec(),
    {
        let b0 = i32_to_be(self.0);
        let b1 = i32_to_be(self.1);
        let b2 = i32_to_be(self.2);
        let r = [b0[0], b0[1], b0[2], b0[3], b1[0], b1[1], b1[2], b1[3], b2[0], b2[1], b2[2], b2[3]];
        assert(r@ =~= b0@ + b1@ + b2@);
        r
    }
}

impl From<(i32, i32, i32)> for I32Triplet {
    fn from(v: (i32, i32, i32)) -> (r: I32Triplet) {
        I32Triplet(v.0, v.1, v.2)
    }
}

impl vstd::std_specs::convert::FromSpecImpl<(i32, i32, i32)> for I32Triplet {
    open spec fn obeys_from_spec() -> bool {
        true
    }

    open spec fn from_spec(v: (i32, i32, i32)) -> I32Triplet {
        I32Triplet(v.0, v.1, v.2)
    }
}

impl WritableToBeBytes for I32Triplet {
    fn written_len(&self) -> (r: usize)
        ensures
            r == 12,
    {
        12
    }

    fn write_to_be_bytes(&self, buf: &mut [u8]) -> (r: Result<usize, ByteConversionError>)
        ensures
            old(buf)@.len() < 12 ==> r == Err::<usize, ByteConversionError>(
                ByteConversionError::ToSliceTooSmall { found: old(buf)@.len() as usize, expected: 12 },
            ) && final(buf)@ == old(buf)@,
            old(buf)@.len() >= 12 ==> r == Ok::<usize, ByteConversionError>(12) && final(buf)@
                == self.be_bytes_spec() + old(buf)@.skip(12),
    {
        if buf.len() < 12 {
            return Err(ByteConversionError::ToSliceTooSmall { found: buf.len(), expected: 12 });
        }
        let bytes = self.to_be_bytes();
        write_prefix(buf, bytes.as_slice());
        Ok(12)
    }
}

impl<'a> TryFrom<&'a [u8]> for I32Triplet {
    type Error = ByteConversionError;

    fn try_from(v: &'a [u8]) -> (r: Result<I32Triplet, ByteConversionError>) {
        if v.len() < 12 {
            return Err(ByteConversionError::FromSliceTooSmall { expected: 12, found: v.len() });
        }
        let x0 = be_i32_at(v, 0);
        let x1 = be_i32_at(v, 4);
        let x2 = be_i32_at(v, 8);
        proof {
            assert(v@.skip(0) =~= v@);
        }
        Ok(I32Triplet(x0, x1, x2))
    }
}

impl<'a> vstd::std_specs::convert::TryFromSpecImpl<&'a [u8]> for I32Triplet {
    open spec fn obeys_try_from_spec() -> bool {
        true
    }

    open spec fn try_from_spec(v: &'a [u8]) -> Result<I32Triplet, ByteConversionError> {
        if v@.len() < 12 {
            Err(ByteConversionError::FromSliceTooSmall { expected: 12, found: v@.len() as usize })
        } else {
            Ok(I32Triplet::from_be_spec(v@))
        }
    }
}

/// Reading a [I32Triplet] back from the bytes it writes gives the same values.
pub proof fn law_i32triplet_be_roundtrip(x: I32Triplet)
    ensures
        x.be_bytes_spec().len() == 12,
        I32Triplet::from_be_spec(x.be_bytes_spec()) == x,
{
    lemma_i32_be_roundtrip(x.0);
    lemma_i32_be_roundtrip(x.1);
    lemma_i32_be_roundtrip(x.2);
    let s = x.be_bytes_spec();
    assert(s.take(4) =~= i32_be_bytes(x.0));
    assert(s.skip(4) =~= i32_be_bytes(x.1) + i32_be_bytes(x.2));
    assert(s.skip(8) =~= i32_be_bytes(x.2));
}

/// Newtype of a [i64] parameter.
#[derive(Debug, Copy, Clone, PartialEq, Eq, Structural)]
pub struct I64(pub i64);

impl I64 {
    /// The big-endian bytes of the values, one after the other.
    pub open spec fn be_bytes_spec(self) -> Seq<u8> {
        i64_be_bytes(self.0)
    }

    /// The values read from the big-endian bytes at the start of a byte sequence.
    pub open spec fn from_be_spec(s: Seq<u8>) -> Self {
        I64(be_i64_of(s))
    }

    /// The big-endian bytes of the values, one after the other.
    pub fn to_be_bytes(&self) -> (r: [u8; 8])
        ensures
            r@ == self.be_bytes_spec(),
    {
        let b0 = i64_to_be(self.0);
        let r = [b0[0], b0[1], b0[2], b0[3], b0[4], b0[5], b0[6], b0[7]];
        assert(r@ =~= b0@);
        r
    }
}

impl From<i64> for I64 {
    fn from(v: i64) -> (r: I64) {
        I64(v)
    }
}

impl vstd::std_specs::convert::FromSpecImpl<i64> for I64 {
    open spec fn obeys_from_spec() -> bool {
        true
    }

    open spec fn from_spec(v: i64) -> I64 {
        I64(v)
    }
}

impl WritableToBeBytes for I64 {
    fn written_len(&self) -> (r: usize)
        ensures
            r == 8,
    {
        8
    }

    fn write_to_be_bytes(&self, buf: &mut [u8]) -> (r: Result<usize, ByteConversionError>)
        ensures
            old(buf)@.len() < 8 ==> r == Err::<usize, ByteConversionError>(
                ByteConversionError::ToSliceTooSmall { found: old(buf)@.len() as usize, expected: 8 },
            ) && final(buf)@ == old(buf)@,
            old(buf)@.len() >= 8 ==> r == Ok::<usize, ByteConversionError>(8) && final(buf)@
                == self.be_bytes_spec() + old(buf)@.skip(8),
    {
        if buf.len() < 8 {
            return Err(ByteConversionError::ToSliceTooSmall { found: buf.len(), expected: 8 });
        }
        let bytes = self.to_be_bytes();
        write_prefix(buf, bytes.as_slice());
        Ok(8)
    }
}

impl<'a> TryFrom<&'a [u8]> for I64 {
    type Error = ByteConversionError;

    fn try_from(v: &'a [u8]) -> (r: Result<I64, ByteConversionError>) {
        if v.len() < 8 {
            return Err(ByteConversionError::FromSliceTooSmall { expected: 8, found: v.len() });
        }
        let x0 = be_i64_at(v, 0);
        proof {
            assert(v@.skip(0) =~= v@);
        }
        Ok(I64(x0))
    }
}

impl<'a> vstd::std_specs::convert::TryFromSpecImpl<&'a [u8]> for I64 {
    open spec fn obeys_try_from_spec() -> bool {
        true
    }

    open spec fn try_from_spec(v: &'a [u8]) -> Result<I64, ByteConversionError> {
        if v@.len() < 8 {
            Err(ByteConversionError::FromSliceTooSmall { expected: 8, found: v@.len() as usize })
        } else {
            Ok(I64::from_be_spec(v@))
        }
    }
}

/// Reading a [I64] back from the bytes it writes gives the same values.
pub proof fn law_i64_be_roundtrip(x: I64)
    ensures
        x.be_bytes_spec().len() == 8,
        I64::from_be_spec(x.be_bytes_spec()) == x,
{
    lemma_i64_be_roundtrip(x.0);
    let s = x.be_bytes_spec();
    assert(s.take(8) =~= i64_be_bytes(x.0));
}

/// A pair of [i64] parameters.
#[derive(Debug, Copy, Clone, PartialEq, Eq, Structural)]
pub struct I64Pair(pub i64, pub i64);

impl I64Pair {
    /// The big-endian bytes of the values, one after the other.
    pub open spec fn be_bytes_spec(self) -> Seq<u8> {
        i64_be_bytes(self.0) + i64_be_bytes(self.1)
    }

    /// The values read from the big-endian bytes at the start of a byte sequence.
    pub open spec fn from_be_spec(s: Seq<u8>) -> Self {
        I64Pair(be_i64_of(s), be_i64_of(s.skip(8)))
    }

    /// The big-endian bytes of the values, one after the other.
    pub fn to_be_bytes(&self) -> (r: [u8; 16])
        ensures
            r@ == self.be_bytes_spec(),
    {
        let b0 = i64_to_be(self.0);
        let b1 = i64_to_be(self.1);
        let r = [b0[0], b0[1], b0[2], b0[3], b0[4], b0[5], b0[6], b0[7], b1[0], b1[1], b1[2], b1[3], b1[4], b1[5], b1[6], b1[7]];
        assert(r@ =~= b0@ + b1@);
        r
    }
}

impl From<(i64, i64)> for I64Pair {
    fn from(v: (i64, i64)) -> (r: I64Pair) {
        I64Pair(v.0, v.1)
    }
}

impl vstd::std_specs::convert::FromSpecImpl<(i64, i64)> for I64Pair {
    open spec fn obeys_from_spec() -> bool {
        true
    }

    open spec fn from_spec(v: (i64, i64)) -> I64Pair {
        I64Pair(v.0, v.1)
    }
}

impl WritableToBeBytes for I64Pair {
    fn written_len(&self) -> (r: usize)
        ensures
            r == 16,
    {
        16
    }

    fn write_to_be_bytes(&self, buf: &mut [u8]) -> (r: Result<usize, ByteConversionError>)
        ensures
            old(buf)@.len() < 16 ==> r == Err::<usize, ByteConversionError>(
                ByteConversionError::ToSliceTooSmall { found: old(buf)@.len() as usize, expected: 16 },
            ) && final(buf)@ == old(buf)@,
            old(buf)@.len() >= 16 ==> r == Ok::<usize, ByteConversionError>(16) && final(buf)@
                == self.be_bytes_spec() + old(buf)@.skip(16),
    {
        if buf.len() < 16 {
            return Err(ByteConversionError::ToSliceTooSmall { found: buf.len(), expected: 16 });
        }
        let bytes = self.to_be_bytes();
        write_prefix(buf, bytes.as_slice());
        Ok(16)
    }
}

impl<'a> TryFrom<&'a [u8]> for I64Pair {
    type Error = ByteConversionError;

    fn try_from(v: &'a [u8]) -> (r: Result<I64Pair, ByteConversionError>) {
        if v.len() < 16 {
            return Err(ByteConversionError::FromSliceTooSmall { expected: 16, found: v.len() });
        }
        let x0 = be_i64_at(v, 0);
        let x1 = be_i64_at(v, 8);
        proof {
            assert(v@.skip(0) =~= v@);
        }
        Ok(I64Pair(x0, x1))
    }
}

impl<'a> vstd::std_specs::convert::TryFromSpecImpl<&'a [u8]> for I64Pair {
    open spec fn obeys_try_from_spec() -> bool {
        true
    }

    open spec fn try_from_spec(v: &'a [u8]) -> Result<I64Pair, ByteConversionError> {
        if v@.len() < 16 {
            Err(ByteConversionError::FromSliceTooSmall { expected: 16, found: v@.len() as usize })
        } else {
            Ok(I64Pair::from_be_spec(v@))
        }
    }
}

/// Reading a [I64Pair] back from the bytes it writes gives the same values.
pub proof fn law_i64pair_be_roundtrip(x: I64Pair)
    ensures
        x.be_bytes_spec().len() == 16,
        I64Pair::from_be_spec(x.be_bytes_spec()) == x,
{
    lemma_i64_be_roundtrip(x.0);
    lemma_i64_be_roundtrip(x.1);
    let s = x.be_bytes_spec();
    assert(s.take(8) =~= i64_be_bytes(x.0));
    assert(s.skip(8) =~= i64_be_bytes(x.1));
}

/// A triplet of [i64] parameters.
#[derive(Debug, Copy, Clone, PartialEq, Eq, Structural)]
pub struct I64Triplet(pub i64, pub i64, pub i64);

impl I64Triplet {
    /// The big-endian bytes of the values, one after the other.
    pub open spec fn be_bytes_spec(self) -> Seq<u8> {
        i64_be_bytes(self.0) + i64_be_bytes(self.1) + i64_be_bytes(self.2)
    }

    /// The values read from the big-endian bytes at the start of a byte sequence.
    pub open spec fn from_be_spec(s: Seq<u8>) -> Self {
        I64Triplet(be_i64_of(s), be_i64_of(s.skip(8)), be_i64_of(s.skip(16)))
    }

    /// The big-endian bytes of the values, one after the other.
    pub fn to_be_bytes(&self) -> (r: [u8; 24])
        ensures
            r@ == self.be_bytes_spec(),
    {
        let b0 = i64_to_be(self.0);
        let b1 = i64_to_be(self.1);
        let b2 = i64_to_be(self.2);
        let r = [b0[0], b0[1], b0[2], b0[3], b0[4], b0[5], b0[6], b0[7], b1[0], b1[1], b1[2], b1[3], b1[4], b1[5], b1[6], b1[7], b2[0], b2[1], b2[2], b2[3], b2[4], b2[5], b2[6], b2[7]];
        assert(r@ =~= b0@ + b1@ + b2@);
        r
    }
}

impl From<(i64, i64, i64)> for I64Triplet {
    fn from(v: (i64, i64, i64)) -> (r: I64Triplet) {
        I64Triplet(v.0, v.1, v.2)
    }
}

impl vstd::std_specs::convert::FromSpecImpl<(i64, i64, i64)> for I64Triplet {
    open spec fn obeys_from_spec() -> bool {
        true
    }

    open spec fn from_spec(v: (i64, i64, i64)) -> I64Triplet {
        I64Triplet(v.0, v.1, v.2)
    }
}

impl WritableToBeBytes for I64Triplet {
    fn written_len(&self) -> (r: usize)
        ensures
            r == 24,
    {
        24
    }

    fn write_to_be_bytes(&self, buf: &mut [u8]) -> (r: Result<usize, ByteConversionError>)
        ensures
            old(buf)@.len() < 24 ==> r == Err::<usize, ByteConversionError>(
                ByteConversionError::ToSliceTooSmall { found: old(buf)@.len() as usize, expected: 24 },
            ) && final(buf)@ == old(buf)@,
            old(buf)@.len() >= 24 ==> r == Ok::<usize, ByteConversionError>(24) && final(buf)@
                == self.be_bytes_spec() + old(buf)@.skip(24),
    {
        if buf.len() < 24 {
            return Err(ByteConversionError::ToSliceTooSmall { found: buf.len(), expected: 24 });
        }
        let bytes = self.to_be_bytes();
        write_prefix(buf, bytes.as_slice());
        Ok(24)
    }
}

impl<'a> TryFrom<&'a [u8]> for I64Triplet {
    type Error = ByteConversionError;

    fn try_from(v: &'a [u8]) -> (r: Result<I64Triplet, ByteConversionError>) {
        if v.len() < 24 {
            return Err(ByteConversionError::FromSliceTooSmall { expected: 24, found: v.len() });
        }
        let x0 = be_i64_at(v, 0);
        let x1 = be_i64_at(v, 8);
        let x2 = be_i64_at(v, 16);
        proof {
            assert(v@.skip(0) =~= v@);
        }
        Ok(I64Triplet(x0, x1, x2))
    }
}

impl<'a> vstd::std_specs::convert::TryFromSpecImpl<&'a [u8]> for I64Triplet {
    open spec fn obeys_try_from_spec() -> bool {
        true
    }

    open spec fn try_from_spec(v: &'a [u8]) -> Result<I64Triplet, ByteConversionError> {
        if v@.len() < 24 {
            Err(ByteConversionError::FromSliceTooSmall { expected: 24, found: v@.len() as usize })
        } else {
            Ok(I64Triplet::from_be_spec(v@))
        }
    }
}

/// Reading a [I64Triplet] back from the bytes it writes gives the same values.
pub proof fn law_i64triplet_be_roundtrip(x: I64Triplet)
    ensures
        x.be_bytes_spec().len() == 24,
        I64Triplet::from_be_spec(x.be_bytes_spec()) == x,
{
    lemma_i64_be_roundtrip(x.0);
    lemma_i64_be_roundtrip(x.1);
    lemma_i64_be_roundtrip(x.2);
    let s = x.be_bytes_spec();
    assert(s.take(8) =~= i64_be_bytes(x.0));
    assert(s.skip(8) =~= i64_be_bytes(x.1) + i64_be_bytes(x.2));
    assert(s.skip(16) =~= i64_be_bytes(x.2));
}

} // verus!
