use satrs::cfdp::filestore::{checksum_verification, ChecksumVerification};
use satrs::bytes::ByteConversionError;
use satrs::cfdp::filestore::{modular_checksum_step, ChecksumType, FilestoreError, VirtualFilestore};

#[test]
fn modular_checksum_adds_big_endian_words() {
    assert_eq!(modular_checksum_step(0, &[0x00, 0x01, 0x02, 0x03]), 0x0001_0203);
    assert_eq!(modular_checksum_step(0x10, &[0x00, 0x01, 0x02, 0x03]), 0x0001_0213);
}

#[test]
fn modular_checksum_pads_short_chunks_with_zeros() {
    assert_eq!(modular_checksum_step(0, &[0x0A, 0x0B]), 0x0A0B_0000);
    assert_eq!(modular_checksum_step(0, &[0x0E]), 0x0E00_0000);
    assert_eq!(modular_checksum_step(7, &[]), 7);
}

#[test]
fn modular_checksum_wraps_around() {
    assert_eq!(modular_checksum_step(0xFFFF_FFFF, &[0, 0, 0, 2]), 1);
}

#[test]
fn modular_checksum_of_example_data() {
    // The 15 example bytes 0x00..=0x0E, read in chunks of four.
    let data: Vec<u8> = (0u8..15).collect();
    let mut checksum = 0;
    for chunk in data.chunks(4) {
        checksum = modular_checksum_step(checksum, chunk);
    }
    assert_eq!(checksum, 0x0001_0203u32 + 0x0405_0607 + 0x0809_0A0B + 0x0C0D_0E00);
}

#[test]
fn filestore_error_from_byte_conversion() {
    let e = ByteConversionError::ToSliceTooSmall { found: 1, expected: 4 };
    assert_eq!(FilestoreError::from(e), FilestoreError::ByteConversion(e));
    assert_eq!(ChecksumType::default(), ChecksumType::NullChecksum);
}

struct NoFilestore;

impl VirtualFilestore for NoFilestore {
    fn create_file(&self, _file_path: &str) -> Result<(), FilestoreError> {
        Err(FilestoreError::Permission)
    }
    fn remove_file(&self, _file_path: &str) -> Result<(), FilestoreError> {
        Err(FilestoreError::Permission)
    }
    fn truncate_file(&self, _file_path: &str) -> Result<(), FilestoreError> {
        Err(FilestoreError::Permission)
    }
    fn remove_dir(&self, _dir_path: &str, _all: bool) -> Result<(), FilestoreError> {
        Err(FilestoreError::Permission)
    }
    fn create_dir(&self, _dir_path: &str) -> Result<(), FilestoreError> {
        Err(FilestoreError::Permission)
    }
    fn read_data(&self, _p: &str, _o: u64, _l: u64, _buf: &mut [u8]) -> Result<(), FilestoreError> {
        Err(FilestoreError::Permission)
    }
    fn write_data(&self, _file: &str, _offset: u64, _buf: &[u8]) -> Result<(), FilestoreError> {
        Err(FilestoreError::Permission)
    }
    fn is_file(&self, path: &str) -> bool {
        path.ends_with(".txt")
    }
    fn path_exists(&self, _path: &str) -> bool {
        false
    }
    fn checksum_verify(
        &self,
        _file_path: &str,
        _checksum_type: ChecksumType,
        _expected_checksum: u32,
        _verification_buf: &mut [u8],
    ) -> Result<bool, FilestoreError> {
        Ok(true)
    }
}

#[test]
fn file_name_of_full_path_and_directory_default() {
    assert_eq!(NoFilestore::filename_from_full_path("/tmp/dir/test.txt"), Some("test.txt"));
    assert_eq!(NoFilestore::filename_from_full_path("/"), None);
    assert_eq!(NoFilestore::filename_from_full_path(""), None);
    assert_eq!(NoFilestore::filename_from_full_path("dir/name.bin/"), Some("name.bin"));
    assert!(NoFilestore.is_dir("/tmp/dir"));
    assert!(!NoFilestore.is_dir("/tmp/dir/test.txt"));
}

#[test]
fn checksum_verification_by_type() {
    assert_eq!(checksum_verification(ChecksumType::Modular), Ok(ChecksumVerification::Modular));
    assert_eq!(checksum_verification(ChecksumType::Crc32), Ok(ChecksumVerification::Crc32));
    assert_eq!(checksum_verification(ChecksumType::NullChecksum), Ok(ChecksumVerification::AlwaysValid));
    assert_eq!(
        checksum_verification(ChecksumType::Crc32C),
        Err(FilestoreError::ChecksumTypeNotImplemented(ChecksumType::Crc32C))
    );
}

#[test]
fn crc32_checksum_of_check_string() {
    assert!(satrs::cfdp::filestore::crc32_checksum_matches(b"123456789", 0x765e7680));
    assert!(!satrs::cfdp::filestore::crc32_checksum_matches(b"123456780", 0x765e7680));
}
