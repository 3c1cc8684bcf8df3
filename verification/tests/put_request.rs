use satrs::bytes::ByteConversionError;
use satrs::cfdp::request::{
    PutRequest, PutRequestOwned, ReadablePutRequest, StaticPutRequestCacher, Tlv,
    TLV_TYPE_FILESTORE_REQUEST, TLV_TYPE_FLOW_LABEL, TLV_TYPE_MSG_TO_USER,
};
use satrs::cfdp::UnsignedByteField;
use spacepackets::cfdp::TransmissionMode;

fn dest_id() -> UnsignedByteField {
    UnsignedByteField::new(2, 5)
}

fn regular<'a>(source_file: &'a str, dest_file: &'a str) -> PutRequest<'a> {
    PutRequest::new_regular_request(dest_id(), source_file, dest_file, None, None).unwrap()
}

#[test]
fn test_put_request_basic() {
    let src_file = "/tmp/hello.txt";
    let dest_file = "/tmp/hello2.txt";
    let put_request =
        PutRequest::new_regular_request(dest_id(), src_file, dest_file, None, None).unwrap();
    assert_eq!(put_request.source_file(), Some(src_file));
    assert_eq!(put_request.dest_file(), Some(dest_file));
    assert_eq!(put_request.destination_id(), dest_id());
    assert_eq!(put_request.seg_ctrl(), None);
    assert_eq!(put_request.closure_requested(), None);
    assert_eq!(put_request.trans_mode(), None);
    assert!(!put_request.has_fs_requests());
    assert!(put_request.fs_requests().is_empty());
    assert!(!put_request.has_msgs_to_user());
    assert!(put_request.msgs_to_user().is_empty());
    assert!(!put_request.has_fault_handler_overrides());
    assert!(put_request.fault_handler_overrides().is_empty());
    assert!(put_request.flow_label().is_none());
}

#[test]
fn test_put_request_owned_basic() {
    let src_file = "/tmp/hello.txt";
    let dest_file = "/tmp/hello2.txt";
    let put_request =
        PutRequestOwned::new_regular_request(dest_id(), src_file, dest_file, None, None).unwrap();
    assert_eq!(put_request.source_file(), Some(src_file));
    assert_eq!(put_request.dest_file(), Some(dest_file));
    assert_eq!(put_request.destination_id(), dest_id());
    assert_eq!(put_request.seg_ctrl(), None);
    assert_eq!(put_request.closure_requested(), None);
    assert_eq!(put_request.trans_mode(), None);
    assert!(!put_request.has_fs_requests());
    assert!(put_request.fs_requests().is_empty());
    assert!(!put_request.has_msgs_to_user());
    assert!(put_request.msgs_to_user().is_empty());
    assert!(!put_request.has_fault_handler_overrides());
    assert!(put_request.fault_handler_overrides().is_empty());
    assert!(put_request.flow_label().is_none());
    let put_request_cloned = put_request.clone();
    assert_eq!(put_request, put_request_cloned);
}

#[test]
fn put_request_refuses_long_path() {
    let long_path: &'static str = Box::leak("a".repeat(256).into_boxed_str());
    let r = PutRequest::new_regular_request(dest_id(), long_path, "/b", None, None);
    assert_eq!(r.unwrap_err().0, 256);
    let r = PutRequestOwned::new_regular_request(dest_id(), "/a", long_path, None, None);
    assert_eq!(r.unwrap_err().0, 256);
}

#[test]
fn tlv_bytes_hold_type_length_and_value() {
    let tlv = Tlv::new(TLV_TYPE_FILESTORE_REQUEST, &[7, 8]).unwrap();
    assert_eq!(tlv.to_bytes(), vec![0, 2, 7, 8]);
    assert_eq!(tlv.len_full(), 4);
    assert_eq!(Tlv::new(0, &[0u8; 256]).unwrap_err().0, 256);
}

#[test]
fn put_request_tlv_type_checks() {
    let msgs = [Tlv::new(TLV_TYPE_MSG_TO_USER, &[1]).unwrap()];
    let bad = [Tlv::new(TLV_TYPE_FLOW_LABEL, &[1]).unwrap()];
    let ok_request = PutRequest::new_msgs_to_user_only(dest_id(), &msgs);
    assert!(ok_request.check_tlv_type_validities());
    assert!(ok_request.has_msgs_to_user());
    assert_eq!(ok_request.msgs_to_user(), vec![vec![2, 1, 1]]);
    let bad_request = PutRequest::new_msgs_to_user_only(dest_id(), &bad);
    assert!(!bad_request.check_tlv_type_validities());
    let owned = PutRequestOwned::new_msgs_to_user_only(dest_id(), &bad).unwrap();
    assert!(!owned.check_tlv_type_validities());
    let owned = PutRequestOwned::from_put_request(ok_request);
    assert!(owned.check_tlv_type_validities());
    assert_eq!(owned.msgs_to_user(), vec![vec![2, 1, 1]]);
    assert_eq!(owned.source_file(), None);
}

#[test]
fn test_put_request_cacher_basic() {
    let put_request_cached = StaticPutRequestCacher::new(512);
    assert_eq!(put_request_cached.static_fields.source_file_len, 0);
    assert_eq!(put_request_cached.static_fields.dest_file_len, 0);
    assert_eq!(put_request_cached.fs_requests_len, 0);
    assert_eq!(put_request_cached.fs_requests.len(), 512);
}

#[test]
fn test_put_request_cacher_set() {
    let mut put_request_cached = StaticPutRequestCacher::new(512);
    let src_file = "/tmp/hello.txt";
    let dest_file = "/tmp/hello2.txt";
    let put_request = regular(src_file, dest_file);
    put_request_cached.set(&put_request).unwrap();
    assert_eq!(put_request_cached.static_fields.source_file_len, src_file.len());
    assert_eq!(put_request_cached.static_fields.dest_file_len, dest_file.len());
    assert_eq!(put_request_cached.source_file().unwrap(), src_file);
    assert_eq!(put_request_cached.dest_file().unwrap(), dest_file);
    assert_eq!(put_request_cached.fs_requests_len, 0);
}

#[test]
fn test_put_request_cacher_set_and_clear() {
    let mut put_request_cached = StaticPutRequestCacher::new(512);
    let src_file = "/tmp/hello.txt";
    let dest_file = "/tmp/hello2.txt";
    let put_request = regular(src_file, dest_file);
    put_request_cached.set(&put_request).unwrap();
    put_request_cached.clear();
    assert_eq!(put_request_cached.static_fields.source_file_len, 0);
    assert_eq!(put_request_cached.static_fields.dest_file_len, 0);
    assert_eq!(put_request_cached.fs_requests_len, 0);
}

#[test]
fn put_request_cacher_refuses_long_source_path() {
    let mut cached = StaticPutRequestCacher::new(16);
    let long_path: &'static str = Box::leak("a".repeat(300).into_boxed_str());
    let put_request = PutRequest {
        destination_id: dest_id(),
        source_file: Some(long_path),
        dest_file: Some("/tmp/x"),
        trans_mode: None,
        closure_requested: None,
        seg_ctrl: None,
        msgs_to_user: None,
        fault_handler_overrides: None,
        flow_label: None,
        fs_requests: None,
    };
    assert_eq!(
        cached.set(&put_request),
        Err(ByteConversionError::ToSliceTooSmall { found: 255, expected: 300 })
    );
    assert_eq!(cached.static_fields.destination_id, UnsignedByteField::new(2, 5));
}

#[test]
fn put_request_cacher_stores_filestore_requests() {
    let mut cached = StaticPutRequestCacher::new(8);
    let fs = [Tlv::new(0, &[7, 8]).unwrap(), Tlv::new(0, &[9]).unwrap()];
    let mut put_request = regular("/a", "/b");
    put_request.trans_mode = Some(TransmissionMode::Unacknowledged);
    put_request.fs_requests = Some(&fs);
    cached.set(&put_request).unwrap();
    assert_eq!(cached.fs_requests_len, 7);
    assert_eq!(&cached.fs_requests[..7], &[0, 2, 7, 8, 0, 1, 9]);
    assert_eq!(cached.static_fields.trans_mode, Some(TransmissionMode::Unacknowledged));
}

#[test]
fn put_request_cacher_refuses_filestore_requests_over_capacity() {
    let mut cached = StaticPutRequestCacher::new(6);
    let fs = [
        Tlv::new(0, &[7, 8]).unwrap(),
        Tlv::new(0, &[9, 9]).unwrap(),
        Tlv::new(1, &[]).unwrap(),
    ];
    let mut put_request = regular("/a", "/b");
    put_request.fs_requests = Some(&fs);
    assert_eq!(
        cached.set(&put_request),
        Err(ByteConversionError::ToSliceTooSmall { found: 6, expected: 8 })
    );
    assert_eq!(&cached.fs_requests[..6], &[0, 2, 7, 8, 1, 0]);
}
