//! Simple [u16] based result codes which also allow to group related result codes.
use vstd::prelude::*;
use crate::bytes::ByteConversionError;

verus! {

/// Simple [u16] based result code type which also allows to group related resultcodes.
#[derive(Debug, Copy, Clone, PartialEq, Eq, Structural)]
pub struct ResultU16 {
    group_id: u8,
    unique_id: u8,
}

/// The raw value of a result code with the given group and unique ID: the group ID is the
/// high byte, the unique ID the low byte.
pub open spec fn raw_of(group_id: u8, unique_id: u8) -> u16 {
    (group_id as int * 256 + unique_id as int) as u16
}

impl ResultU16 {
    pub closed spec fn spec_group_id(self) -> u8 {
        self.group_id
    }

    pub closed spec fn spec_unique_id(self) -> u8 {
        self.unique_id
    }

    /// The raw [u16] value of this result code.
    pub open spec fn spec_raw(self) -> u16 {
        raw_of(self.spec_group_id(), self.spec_unique_id())
    }

    /// The result code with the given group and unique ID.
    pub closed spec fn spec_new(group_id: u8, unique_id: u8) -> ResultU16 {
        ResultU16 { group_id, unique_id }
    }

    pub fn new(group_id: u8, unique_id: u8) -> (r: Self)
        ensures
            r == ResultU16::spec_new(group_id, unique_id),
            r.spec_group_id() == group_id,
            r.spec_unique_id() == unique_id,
    {
        Self { group_id, unique_id }
    }

    pub fn raw(&self) -> (r: u16)
        ensures
            r == self.spec_raw(),
    {
        let r: u16 = ((self.group_id as u16) << 8) | self.unique_id as u16;
        assert(r == ((self.group_id as u16) << 8) | self.unique_id as u16);
        let g: u8 = self.group_id;
        let u: u8 = self.unique_id;
        assert((((g as u16) << 8u16) | u as u16) == (g as int * 256 + u as int) as u16) by (bit_vector);
        r
    }

    pub fn group_id(&self) -> (r: u8)
        ensures
            r == self.spec_group_id(),
    {
        self.group_id
    }

    pub fn unique_id(&self) -> (r: u8)
        ensures
            r == self.spec_unique_id(),
    {
        self.unique_id
    }

    /// Builds a result code from a raw value: the high byte is the group ID, the low byte the
    /// unique ID.
    pub fn from_u16(value: u16) -> (r: Self)
        ensures
            r == ResultU16::spec_from_raw(value),
            r.spec_group_id() == value / 256,
            r.spec_unique_id() == value % 256,
            r.spec_raw() == value,
    {
        let g: u8 = ((value >> 8) & 0xff) as u8;
        let u: u8 = (value & 0xff) as u8;
        assert(((value >> 8u16) & 0xffu16) as u8 == value / 256) by (bit_vector);
        assert((value & 0xffu16) as u8 == value % 256) by (bit_vector);
        Self::new(g, u)
    }

    /// Builds a result code from its big-endian byte representation.
    pub fn from_be_bytes(bytes: [u8; 2]) -> (r: Self)
        ensures
            r == ResultU16::spec_new(bytes[0], bytes[1]),
            r.spec_group_id() == bytes[0],
            r.spec_unique_id() == bytes[1],
    {
        Self::new(bytes[0], bytes[1])
    }

    /// Size of the written representation in bytes.
    pub fn size(&self) -> (r: usize)
        ensures
            r == 2,
    {
        2
    }

    /// The packet field code of the ECSS enumeration.
    pub fn pfc(&self) -> (r: u8)
        ensures
            r == 16,
    {
        16
    }

    /// The raw value as [u64].
    pub fn value_raw(&self) -> (r: u64)
        ensures
            r == self.spec_raw(),
    {
        self.raw() as u64
    }

    /// Writes the big-endian representation to the start of the buffer.
    pub fn write_to_be_bytes(&self, buf: &mut [u8]) -> (r: Result<usize, ByteConversionError>)
        ensures
            final(buf)@.len() == old(buf)@.len(),
            old(buf)@.len() < 2 ==> r == Err::<usize, ByteConversionError>(
                ByteConversionError::ToSliceTooSmall { found: old(buf)@.len() as usize, expected: 2 },
            ) && final(buf)@ == old(buf)@,
            old(buf)@.len() >= 2 ==> r == Ok::<usize, ByteConversionError>(2) && final(buf)@ == old(
                buf,
            )@.update(0, self.spec_group_id()).update(1, self.spec_unique_id()),
    {
        if buf.len() < 2 {
            return Err(ByteConversionError::ToSliceTooSmall { found: buf.len(), expected: 2 });
        }
        buf[0] = self.group_id;
        buf[1] = self.unique_id;
        Ok(self.size())
    }
}

impl From<u16> for ResultU16 {
    fn from(value: u16) -> (r: ResultU16) {
        ResultU16::from_u16(value)
    }
}

impl vstd::std_specs::convert::FromSpecImpl<u16> for ResultU16 {
    open spec fn obeys_from_spec() -> bool {
        true
    }

    open spec fn from_spec(v: u16) -> ResultU16 {
        ResultU16::spec_from_raw(v)
    }
}

impl ResultU16 {
    /// The result code with the given raw value.
    pub closed spec fn spec_from_raw(v: u16) -> ResultU16 {
        ResultU16 { group_id: (v / 256) as u8, unique_id: (v % 256) as u8 }
    }

}

/// Converting a result code to its raw value and back gives the same result code.
pub proof fn lemma_raw_roundtrip(r: ResultU16)
    ensures
        ResultU16::spec_from_raw(r.spec_raw()) == r,
{
    assert(r.spec_raw() / 256 == r.spec_group_id());
    assert(r.spec_raw() % 256 == r.spec_unique_id());
}

/// Converting a raw value to a result code and back gives the same raw value.
pub proof fn lemma_from_raw_roundtrip(value: u16)
    ensures
        ResultU16::spec_from_raw(value).spec_raw() == value,
{
}

/// Reading a result code back from the bytes written by [ResultU16::write_to_be_bytes] (the group
/// ID, then the unique ID) gives the same result code.
pub proof fn lemma_bytes_roundtrip(r: ResultU16)
    ensures
        ResultU16::spec_new(r.spec_group_id(), r.spec_unique_id()) == r,
{
}

} // verus!
