//! Filestore abstraction of CFDP: its errors, the checksum types, the operations a filestore
//! offers, and the arithmetic of the modular checksum of file data.
use vstd::prelude::*;
use crate::bytes::ByteConversionError;
use crate::mode::be_u32;

verus! {

/// Checksum types according to the SANA Checksum Types registry.
#[derive(Default, Debug, Copy, Clone, PartialEq, Eq, Structural)]
pub enum ChecksumType {
    /// Modular legacy checksum
    Modular,
    /// CRC32 Proximity-1.
    Crc32Proximity1,
    /// CRC32C.
    Crc32C,
    /// CRC32. Polynomial: 0x4C11DB7. Preferred checksum for now.
    Crc32,
    /// Null checksum (no checksum).
    #[default]
    NullChecksum,
}

/// Errors of filestore operations.
#[derive(Debug, Clone, PartialEq, Eq)]
pub enum FilestoreError {
    FileDoesNotExist,
    FileAlreadyExists,
    DirDoesNotExist,
    Permission,
    IsNotFile,
    IsNotDirectory,
    ByteConversion(ByteConversionError),
    Io { raw_errno: Option<i32>, string: String },
    ChecksumTypeNotImplemented(ChecksumType),
}

impl From<ByteConversionError> for FilestoreError {
    fn from(value: ByteConversionError) -> (r: FilestoreError) {
        FilestoreError::ByteConversion(value)
    }
}

impl vstd::std_specs::convert::FromSpecImpl<ByteConversionError> for FilestoreError {
    open spec fn obeys_from_spec() -> bool {
        true
    }

    open spec fn from_spec(v: ByteConversionError) -> FilestoreError {
        FilestoreError::ByteConversion(v)
    }
}

/// Whether the name could be the final component of the path, on any platform: it is not
/// empty, not `.` or `..`, holds no `/`, and stands in the path as a contiguous part.
pub open spec fn could_be_file_name(name: Seq<char>, path: Seq<char>) -> bool {
    &&& name.len() > 0
    &&& name != seq!['.']
    &&& name != seq!['.', '.']
    &&& forall|k: int| 0 <= k < name.len() ==> name[k] != '/'
    &&& exists|i: int| 0 <= i && i + name.len() <= path.len() && #[trigger] path.subrange(i, i + name.len()) == name
}

/// Calls `std::path::Path::file_name` on the path and gives the final component as a string
/// slice, if there is one and it is valid UTF-8.
///
/// Which component that is depends on the platform's path syntax, so only what holds on every
/// platform is claimed: an empty path has none, and a final component is a non-empty part of
/// the path, not `.` or `..`, without `/` (a separator everywhere).
#[verifier::external_body]
fn path_file_name(path: &str) -> (r: Option<&str>)
    ensures
        path@.len() == 0 ==> r is None,
        r matches Some(n) ==> could_be_file_name(n@, path@),
{
    std::path::Path::new(path).file_name().and_then(|name| name.to_str())
}

/// The operations of a filestore which CFDP needs.
pub trait VirtualFilestore {
    fn create_file(&self, file_path: &str) -> Result<(), FilestoreError>;

    fn remove_file(&self, file_path: &str) -> Result<(), FilestoreError>;

    /// Truncating a file means deleting all its data so the resulting file is empty.
    /// This can be more efficient than removing and re-creating a file.
    fn truncate_file(&self, file_path: &str) -> Result<(), FilestoreError>;

    fn remove_dir(&self, dir_path: &str, all: bool) -> Result<(), FilestoreError>;

    fn create_dir(&self, dir_path: &str) -> Result<(), FilestoreError>;

    fn read_data(
        &self,
        file_path: &str,
        offset: u64,
        read_len: u64,
        buf: &mut [u8],
    ) -> Result<(), FilestoreError>;

    fn write_data(&self, file: &str, offset: u64, buf: &[u8]) -> Result<(), FilestoreError>;

    /// The file name of a full path: its final component.
    fn filename_from_full_path(path: &str) -> (r: Option<&str>) where Self: Sized
        ensures
            path@.len() == 0 ==> r is None,
            r matches Some(n) ==> could_be_file_name(n@, path@),
    {
        path_file_name(path)
    }

    fn is_file(&self, path: &str) -> bool;

    /// Whatever is not a file is taken as a directory.
    fn is_dir(&self, path: &str) -> (r: bool) {
        !self.is_file(path)
    }

    /// Whether anything exists at the path.
    fn path_exists(&self, path: &str) -> bool;

    /// This special function is the CFDP specific abstraction to verify the checksum of a file.
    /// This allows to keep OS specific details like reading the whole file in the most
    /// efficient manner inside the file system abstraction.
    ///
    /// The passed verification buffer argument will be used by the specific implementation as
    /// a buffer to read the file into.
    fn checksum_verify(
        &self,
        file_path: &str,
        checksum_type: ChecksumType,
        expected_checksum: u32,
        verification_buf: &mut [u8],
    ) -> Result<bool, FilestoreError>;
}

/// How a filestore verifies a checksum of a given type.
#[derive(Debug, Copy, Clone, PartialEq, Eq, Structural)]
pub enum ChecksumVerification {
    /// Compute the modular checksum of the file and compare it.
    Modular,
    /// Compute the CRC32 of the file and compare it.
    Crc32,
    /// The null checksum matches any file.
    AlwaysValid,
}

/// How a checksum of the type is verified: the modular checksum and CRC32 are computed and
/// compared, the null checksum always matches, and the other types are not implemented.
pub fn checksum_verification(checksum_type: ChecksumType) -> (r: Result<ChecksumVerification, FilestoreError>)
    ensures
        checksum_type == ChecksumType::Modular ==> r == Ok::<ChecksumVerification, FilestoreError>(ChecksumVerification::Modular),
        checksum_type == ChecksumType::Crc32 ==> r == Ok::<ChecksumVerification, FilestoreError>(ChecksumVerification::Crc32),
        checksum_type == ChecksumType::NullChecksum ==> r == Ok::<ChecksumVerification, FilestoreError>(ChecksumVerification::AlwaysValid),
        (checksum_type == ChecksumType::Crc32Proximity1 || checksum_type == ChecksumType::Crc32C) ==> r == Err::<ChecksumVerification, FilestoreError>(FilestoreError::ChecksumTypeNotImplemented(checksum_type)),
{
    match checksum_type {
        ChecksumType::Modular => Ok(ChecksumVerification::Modular),
        ChecksumType::Crc32 => Ok(ChecksumVerification::Crc32),
        ChecksumType::NullChecksum => Ok(ChecksumVerification::AlwaysValid),
        _ => Err(FilestoreError::ChecksumTypeNotImplemented(checksum_type)),
    }
}

/// The CRC-32/CKSUM checksum of the bytes (polynomial 0x04C11DB7, initial value 0, no
/// reflection, final XOR 0xFFFFFFFF), as the `crc` crate computes it.
pub uninterp spec fn crc32_cksum(data: Seq<u8>) -> u32;

/// Calls `crc::Crc::<u32>::checksum` with the `CRC_32_CKSUM` algorithm on the bytes; its result
/// is named [crc32_cksum].
#[verifier::external_body]
fn crc32_checksum(data: &[u8]) -> (r: u32)
    ensures
        r == crc32_cksum(data@),
{
    ::crc::Crc::<u32>::new(&::crc::CRC_32_CKSUM).checksum(data)
}

/// Whether the CRC-32 checksum of the file data is the expected one.
pub fn crc32_checksum_matches(data: &[u8], expected: u32) -> (r: bool)
    ensures
        r == (crc32_cksum(data@) == expected),
{
    crc32_checksum(data) == expected
}

/// The big-endian value of up to four bytes, padded with zero bytes at the end to four bytes.
pub open spec fn padded_be_word(chunk: Seq<u8>) -> u32 {
    be_u32(
        if chunk.len() > 0 { chunk[0] } else { 0 },
        if chunk.len() > 1 { chunk[1] } else { 0 },
        if chunk.len() > 2 { chunk[2] } else { 0 },
        if chunk.len() > 3 { chunk[3] } else { 0 },
    )
}

/// One step of the modular checksum of a file: the chunk of up to four bytes that a read gave,
/// padded with zero bytes to a big-endian word, is added to the checksum, wrapping around.
pub fn modular_checksum_step(checksum: u32, chunk: &[u8]) -> (r: u32)
    requires
        chunk@.len() <= 4,
    ensures
        r == (checksum + padded_be_word(chunk@)) % 0x1_0000_0000,
{
    let mut buffer: [u8; 4] = [0; 4];
    let mut i: usize = 0;
    while i < chunk.len()
        invariant
            chunk@.len() <= 4,
            i <= chunk@.len(),
            buffer@.len() == 4,
            forall|k: int| 0 <= k < i ==> buffer@[k] == chunk@[k],
            forall|k: int| i <= k < 4 ==> buffer@[k] == 0,
        decreases chunk.len() - i,
    {
        buffer.set(i, chunk[i]);
        i += 1;
    }
    let b0: u8 = buffer[0];
    let b1: u8 = buffer[1];
    let b2: u8 = buffer[2];
    let b3: u8 = buffer[3];
    assert(b0 == (if chunk@.len() > 0 { chunk@[0] } else { 0 }));
    assert(b1 == (if chunk@.len() > 1 { chunk@[1] } else { 0 }));
    assert(b2 == (if chunk@.len() > 2 { chunk@[2] } else { 0 }));
    assert(b3 == (if chunk@.len() > 3 { chunk@[3] } else { 0 }));
    let word: u32 = ((b0 as u32) << 24u32) | ((b1 as u32) << 16u32) | ((b2 as u32) << 8u32) | (b3 as u32);
    assert(((b0 as u32) << 24u32) | ((b1 as u32) << 16u32) | ((b2 as u32) << 8u32) | (b3 as u32)
        == (b0 as int * 0x100_0000 + b1 as int * 0x1_0000 + b2 as int * 0x100 + b3 as int) as u32)
        by (bit_vector);
    checksum.wrapping_add(word)
}

} // verus!
