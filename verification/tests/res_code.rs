use satrs::res_code::ResultU16;

const RESULT_CODE_CONST_GROUP: u8 = 1;
const RESULT_CODE_CONST_UNIQUE: u8 = 1;

#[test]
pub fn res_code_test_basic() {
    let result_code_const = ResultU16::new(RESULT_CODE_CONST_GROUP, RESULT_CODE_CONST_UNIQUE);
    let result_code = ResultU16::new(1, 1);
    assert_eq!(result_code.unique_id(), 1);
    assert_eq!(result_code.group_id(), 1);
    assert_eq!(result_code, result_code_const);
    assert_eq!(result_code.raw(), (1_u16 << 8) | 1);
    assert_eq!(result_code.pfc(), 16);
    assert_eq!(result_code.size(), 2);
    let mut buf: [u8; 2] = [0; 2];
    let written = result_code.write_to_be_bytes(&mut buf).unwrap();
    assert_eq!(written, 2);
    assert_eq!(buf[0], 1);
    assert_eq!(buf[1], 1);
    let read_back = ResultU16::from_be_bytes(buf);
    assert_eq!(read_back, result_code);
}

#[test]
fn test_from_u16() {
    let result_code = ResultU16::new(1, 1);
    let result_code_2 = ResultU16::from(result_code.raw());
    assert_eq!(result_code, result_code_2);
}

#[test]
fn res_code_raw_layout() {
    let code = ResultU16::new(0x12, 0x34);
    assert_eq!(code.raw(), 0x1234);
    assert_eq!(code.value_raw(), 0x1234);
    assert_eq!(ResultU16::from(0xABCD), ResultU16::new(0xAB, 0xCD));
}

#[test]
fn res_code_write_to_small_buffer_fails() {
    let code = ResultU16::new(2, 3);
    let mut buf = [0u8; 1];
    assert_eq!(
        code.write_to_be_bytes(&mut buf),
        Err(satrs::bytes::ByteConversionError::ToSliceTooSmall { found: 1, expected: 2 })
    );
    assert_eq!(buf, [0]);
}
