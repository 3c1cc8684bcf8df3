use satrs::bytes::ByteConversionError;
use satrs::params::{
    WritableToBeBytes, I16, I16Pair, I16Triplet, I32, I32Pair, I64, I8, I8Pair, I8Triplet, U16,
    U16Pair, U16Triplet, U32, U32Pair, U32Triplet, U64, U64Triplet, U8, U8Pair, U8Triplet,
};

fn check_writing_fails(param: &impl WritableToBeBytes) {
    let len = param.written_len();
    let mut vec = vec![0; len - 1];
    assert_eq!(
        param.write_to_be_bytes(&mut vec),
        Err(ByteConversionError::ToSliceTooSmall { found: len - 1, expected: len })
    );
    assert!(vec.iter().all(|b| *b == 0));
}

fn written(param: &impl WritableToBeBytes) -> Vec<u8> {
    let mut vec = vec![0xAA; param.written_len() + 2];
    assert_eq!(param.write_to_be_bytes(&mut vec), Ok(param.written_len()));
    // Bytes after the written ones stay as they were.
    assert_eq!(&vec[param.written_len()..], &[0xAA, 0xAA]);
    vec.truncate(param.written_len());
    assert_eq!(param.to_vec().unwrap(), vec);
    vec
}

#[test]
fn u32_pair_bytes_and_back() {
    let u32_pair = U32Pair(0x1010, 25);
    assert_eq!(u32_pair.0, 0x1010);
    assert_eq!(u32_pair.1, 25);
    let raw_buf = u32_pair.to_be_bytes();
    assert_eq!(raw_buf, [0, 0, 0x10, 0x10, 0, 0, 0, 25]);
    assert_eq!(written(&u32_pair), raw_buf.to_vec());
    let u32_pair_from_stream: U32Pair = raw_buf.as_slice().try_into().unwrap();
    assert_eq!(u32_pair_from_stream.0, 0x1010);
    assert_eq!(u32_pair_from_stream.1, 25);
    check_writing_fails(&u32_pair);
}

#[test]
fn triplets_from_tuples() {
    let raw_params = U32Triplet::from((1, 2, 3));
    assert_eq!(raw_params, U32Triplet(1, 2, 3));
    assert_eq!(raw_params.written_len(), 12);
    assert_eq!(raw_params.to_be_bytes(), [0, 0, 0, 1, 0, 0, 0, 2, 0, 0, 0, 3]);
    let u16_triplet = U16Triplet::from((1, 2, 3));
    assert_eq!(u16_triplet.written_len(), 6);
    assert_eq!(u16_triplet.to_be_bytes(), [0, 1, 0, 2, 0, 3]);
    let u8_triplet = U8Triplet::from((1, 2, 3));
    assert_eq!(u8_triplet.written_len(), 3);
    assert_eq!(u8_triplet.to_be_bytes(), [1, 2, 3]);
    check_writing_fails(&raw_params);
    check_writing_fails(&u16_triplet);
    check_writing_fails(&u8_triplet);
}

#[test]
fn singles_write_their_big_endian_bytes() {
    assert_eq!(U8::from(20).to_be_bytes(), [20]);
    assert_eq!(U16::from(0x123).to_be_bytes(), [0x01, 0x23]);
    assert_eq!(U32::from(20).to_be_bytes(), [0, 0, 0, 20]);
    assert_eq!(U32::from(20), U32(20));
    assert_eq!(U64::from(0x0102_0304_0506_0708).to_be_bytes(), [1, 2, 3, 4, 5, 6, 7, 8]);
    assert_eq!(I8::from(-5).to_be_bytes(), (-5i8).to_be_bytes());
    assert_eq!(I16::from(-300).to_be_bytes(), (-300i16).to_be_bytes());
    assert_eq!(I32::from(-80000).to_be_bytes(), (-80000i32).to_be_bytes());
    assert_eq!(I64::from(-5).to_be_bytes(), (-5i64).to_be_bytes());
    assert_eq!(U8(20).written_len(), 1);
    assert_eq!(I64(1).written_len(), 8);
    check_writing_fails(&U16(1));
    check_writing_fails(&I64(-1));
}

#[test]
fn signed_pairs_and_triplets() {
    let i8_pair = I8Pair(-3, -16);
    let raw = i8_pair.to_be_bytes();
    assert_eq!(i8::from_be_bytes([raw[0]]), -3);
    assert_eq!(i8::from_be_bytes([raw[1]]), -16);
    let i8_triplet = I8Triplet(-3, -16, -126);
    assert_eq!(i8_triplet.to_be_bytes(), [(-3i8) as u8, (-16i8) as u8, (-126i8) as u8]);
    let i16_pair = I16Pair::from((-300, -400));
    assert_eq!(i16_pair.written_len(), 4);
    let i16_triplet = I16Triplet::from((-300, -400, -350));
    assert_eq!(i16_triplet.written_len(), 6);
    let i32_pair = I32Pair::from((-80000, -200));
    assert_eq!(i32_pair.written_len(), 8);
    check_writing_fails(&i8_pair);
    check_writing_fails(&i32_pair);
}

#[test]
fn reading_back_every_shape() {
    let pair = U8Pair(4, 8);
    assert_eq!(U8Pair::try_from(pair.to_be_bytes().as_slice()), Ok(pair));
    let triplet = I16Triplet(-1, i16::MIN, i16::MAX);
    assert_eq!(I16Triplet::try_from(triplet.to_be_bytes().as_slice()), Ok(triplet));
    let big = U64Triplet(u64::MAX, 0, 0x8000_0000_0000_0001);
    assert_eq!(U64Triplet::try_from(big.to_be_bytes().as_slice()), Ok(big));
    let pair = U16Pair(0xBEEF, 7);
    assert_eq!(U16Pair::try_from(&[0xBE, 0xEF, 0, 7, 99][..]), Ok(pair));
    assert_eq!(
        U16Pair::try_from(&[0xBE, 0xEF, 0][..]),
        Err(ByteConversionError::FromSliceTooSmall { expected: 4, found: 3 })
    );
    assert_eq!(
        I64::try_from(&[0xFF; 8][..]),
        Ok(I64(-1))
    );
}
