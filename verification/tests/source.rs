use satrs::cfdp::filestore::{ChecksumType, FilestoreError};
use satrs::cfdp::request::{PutRequest, StaticPutRequestCacher};
use satrs::cfdp::source::{
    Direction, LargeFileFlag, PutRequestError, SourceError, SourceHandler, TransactionStep,
};
use satrs::cfdp::{
    ConditionCode, DefaultFaultHandler, IndicationConfig, LocalEntityConfig, PacketInfo,
    RemoteEntityConfig, RemoteEntityConfigProvider, State, StdRemoteEntityConfigProvider,
    TransactionId, UnsignedByteField, UserFaultHandler,
};
use spacepackets::cfdp::pdu::eof::EofPdu;
use spacepackets::cfdp::pdu::finished::{DeliveryCode, FileStatus, FinishedPduCreator};
use spacepackets::cfdp::pdu::{CommonPduConfig, PduHeader, WritablePduPacket};
use spacepackets::cfdp::TransmissionMode;

#[derive(Default)]
struct TestFaultHandler {
    calls: u32,
}

impl UserFaultHandler for TestFaultHandler {
    fn notice_of_suspension_cb(&mut self, _id: TransactionId, _cond: ConditionCode, _progress: u64) {
        self.calls += 1;
    }
    fn notice_of_cancellation_cb(&mut self, _id: TransactionId, _cond: ConditionCode, _progress: u64) {
        self.calls += 1;
    }
    fn abandoned_cb(&mut self, _id: TransactionId, _cond: ConditionCode, _progress: u64) {
        self.calls += 1;
    }
    fn ignore_cb(&mut self, _id: TransactionId, _cond: ConditionCode, _progress: u64) {
        self.calls += 1;
    }
}

fn local_id() -> UnsignedByteField {
    UnsignedByteField::new(2, 2)
}

fn default_source_handler() -> SourceHandler<TestFaultHandler> {
    let local_entity_cfg = LocalEntityConfig {
        id: local_id(),
        indication_cfg: IndicationConfig::default(),
        default_fault_handler: DefaultFaultHandler::new(TestFaultHandler::default()),
    };
    SourceHandler::new(local_entity_cfg, StaticPutRequestCacher::new(1024))
}

fn remote_cfg(dest: UnsignedByteField) -> RemoteEntityConfig {
    RemoteEntityConfig::new_with_default_values(
        dest,
        1024,
        1024,
        true,
        true,
        TransmissionMode::Unacknowledged,
        ChecksumType::Crc32,
    )
}

#[test]
fn source_test_basic() {
    let source_handler = default_source_handler();
    assert!(source_handler.transmission_mode().is_none());
    assert_eq!(source_handler.state(), State::Idle);
    assert_eq!(source_handler.step(), TransactionStep::Idle);
    assert!(source_handler.pdu_conf().is_none());
}

#[test]
fn put_request_makes_handler_busy_with_defaults() {
    let mut handler = default_source_handler();
    let dest = UnsignedByteField::new(1, 5);
    let request = PutRequest::new_regular_request(dest, "/tmp/a.txt", "/tmp/b.txt", None, None).unwrap();
    handler
        .put_request(&request, &remote_cfg(dest), UnsignedByteField::new(2, 7))
        .unwrap();
    assert_eq!(handler.state(), State::Busy);
    assert_eq!(handler.transmission_mode(), Some(TransmissionMode::Unacknowledged));
    let tstate = handler.transfer_state().unwrap();
    assert!(tstate.closure_requested);
    assert_eq!(tstate.transaction_id.seq_num().value(), 7);
    assert_eq!(tstate.transaction_id.source_id().value(), 5);
    assert_eq!(handler.put_request_cacher().source_file().unwrap(), "/tmp/a.txt");
    assert_eq!(handler.put_request_cacher().dest_file().unwrap(), "/tmp/b.txt");
    // A second request is refused while busy.
    let other = PutRequest::new_regular_request(dest, "/c", "/d", Some(TransmissionMode::Acknowledged), Some(false)).unwrap();
    assert!(matches!(
        handler.put_request(&other, &remote_cfg(dest), UnsignedByteField::new(2, 8)),
        Err(PutRequestError::AlreadyBusy)
    ));
    assert_eq!(handler.transmission_mode(), Some(TransmissionMode::Unacknowledged));
}

#[test]
fn put_request_options_override_remote_defaults() {
    let mut handler = default_source_handler();
    let dest = UnsignedByteField::new(1, 5);
    let request = PutRequest::new_regular_request(
        dest,
        "/tmp/a.txt",
        "/tmp/b.txt",
        Some(TransmissionMode::Acknowledged),
        Some(false),
    )
    .unwrap();
    handler
        .put_request(&request, &remote_cfg(dest), UnsignedByteField::new(2, 1))
        .unwrap();
    let tstate = handler.transfer_state().unwrap();
    assert_eq!(tstate.transmission_mode, TransmissionMode::Acknowledged);
    assert!(!tstate.closure_requested);
}

#[test]
fn put_request_reports_caching_error() {
    let mut handler = default_source_handler();
    let dest = UnsignedByteField::new(1, 5);
    let long_path: &'static str = Box::leak("a".repeat(300).into_boxed_str());
    let mut request = PutRequest::new_regular_request(dest, "/a", "/b", None, None).unwrap();
    request.source_file = Some(long_path);
    assert!(matches!(
        handler.put_request(&request, &remote_cfg(dest), UnsignedByteField::new(2, 1)),
        Err(PutRequestError::Storage(_))
    ));
    assert_eq!(handler.state(), State::Idle);
}

#[test]
fn transaction_start_widens_entity_ids_and_flags_large_files() {
    let mut handler = default_source_handler();
    let dest = UnsignedByteField::new(4, 0x1234);
    let request = PutRequest::new_regular_request(dest, "/tmp/a.txt", "/tmp/b.txt", None, None).unwrap();
    handler
        .put_request(&request, &remote_cfg(dest), UnsignedByteField::new(2, 3))
        .unwrap();
    handler.handle_transaction_start(Some(u32::MAX as u64 + 1)).unwrap();
    let conf = handler.pdu_conf().unwrap();
    assert_eq!(conf.source_id.width(), 4);
    assert_eq!(conf.source_id.value(), 2);
    assert_eq!(conf.dest_id.width(), 4);
    assert_eq!(conf.dest_id.value(), 0x1234);
    assert_eq!(conf.file_flag, LargeFileFlag::Large);
    assert_eq!(conf.direction, Direction::TowardsReceiver);
    assert!(conf.crc_flag);
    assert_eq!(conf.transaction_seq_num.value(), 3);
    assert_eq!(conf.trans_mode, TransmissionMode::Unacknowledged);
    assert!(!handler.file_params().metadata_only);
}

#[test]
fn transaction_start_with_normal_file_and_missing_file() {
    let mut handler = default_source_handler();
    let dest = UnsignedByteField::new(1, 9);
    let request = PutRequest::new_regular_request(dest, "/tmp/a.txt", "/tmp/b.txt", None, None).unwrap();
    handler
        .put_request(&request, &remote_cfg(dest), UnsignedByteField::new(2, 3))
        .unwrap();
    assert!(matches!(
        handler.handle_transaction_start(None),
        Err(SourceError::FilestoreError(FilestoreError::FileDoesNotExist))
    ));
    assert!(handler.pdu_conf().is_none());
    handler.handle_transaction_start(Some(u32::MAX as u64)).unwrap();
    let conf = handler.pdu_conf().unwrap();
    assert_eq!(conf.file_flag, LargeFileFlag::Normal);
    assert_eq!(conf.source_id.width(), 2);
    assert_eq!(conf.dest_id.width(), 2);
    assert_eq!(conf.dest_id.value(), 9);
}

#[test]
fn transaction_start_without_source_file_is_metadata_only() {
    let mut handler = default_source_handler();
    let dest = UnsignedByteField::new(1, 9);
    let msgs = [satrs::cfdp::request::Tlv::new(2, &[1]).unwrap()];
    let request = PutRequest::new_msgs_to_user_only(dest, &msgs);
    handler
        .put_request(&request, &remote_cfg(dest), UnsignedByteField::new(2, 3))
        .unwrap();
    handler.handle_transaction_start(None).unwrap();
    assert!(handler.file_params().metadata_only);
    assert!(handler.file_params().no_eof);
}

#[test]
fn state_machine_starts_transaction_and_refuses_packets_for_destination() {
    let mut handler = default_source_handler();
    let dest = UnsignedByteField::new(1, 9);
    let request = PutRequest::new_regular_request(dest, "/tmp/a.txt", "/tmp/b.txt", None, None).unwrap();
    handler
        .put_request(&request, &remote_cfg(dest), UnsignedByteField::new(2, 3))
        .unwrap();

    let mut buf: [u8; 128] = [0; 128];
    let header = PduHeader::new_for_file_directive(CommonPduConfig::default(), 0);
    EofPdu::new_no_error(header, 0, 0).write_to_bytes(&mut buf).unwrap();
    let eof_info = PacketInfo::new(&buf).unwrap();
    assert!(matches!(
        handler.state_machine(Some(&eof_info), Some(10)),
        Err(SourceError::CantProcessPacketType { .. })
    ));
    assert_eq!(handler.step(), TransactionStep::Idle);

    let mut buf2: [u8; 128] = [0; 128];
    FinishedPduCreator::new_no_error(header, DeliveryCode::Complete, FileStatus::Retained)
        .write_to_bytes(&mut buf2)
        .unwrap();
    let finished_info = PacketInfo::new(&buf2).unwrap();
    assert_eq!(handler.state_machine(Some(&finished_info), Some(10)).unwrap(), 0);
    assert_eq!(handler.step(), TransactionStep::SendingMetadata);
    assert_eq!(handler.pdu_conf().unwrap().file_flag, LargeFileFlag::Normal);
}

#[test]
fn remote_config_table_adds_looks_up_and_removes() {
    let mut table = StdRemoteEntityConfigProvider::default();
    let cfg = remote_cfg(UnsignedByteField::new(2, 5));
    assert!(table.get_remote_config(5).is_none());
    assert!(table.add_config(&cfg));
    assert_eq!(table.get_remote_config(5).unwrap().max_packet_len, 1024);
    let mut other = remote_cfg(UnsignedByteField::new(1, 5));
    other.max_packet_len = 10;
    assert!(!table.add_config(&other));
    assert_eq!(table.get_remote_config(5).unwrap().max_packet_len, 1024);
    assert!(table.remove_config(5));
    assert!(!table.remove_config(5));
    assert!(table.get_remote_config(5).is_none());
    assert_eq!(cfg.check_limit, 2);
    assert!(cfg.immediate_nak_mode);
}
