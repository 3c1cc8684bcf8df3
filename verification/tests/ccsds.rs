use std::cell::RefCell;
use std::collections::VecDeque;

use arbitrary_int::{u11, u14};
use satrs::encoding::ccsds::{parse_buffer_for_ccsds_space_packets, SpValidity, SpacePacketValidator};
use satrs::tmtc::PacketSenderRaw;
use satrs::ComponentId;
use spacepackets::ecss::tc::PusTcCreator;
use spacepackets::ecss::{CreatorConfig, MessageTypeId};
use spacepackets::{CcsdsPacket, PacketId, PacketSequenceControl, PacketType, SequenceFlags, SpHeader};

const PARSER_ID: ComponentId = 0x05;
const TEST_APID_0: u11 = u11::new(0x02);
const TEST_APID_1: u11 = u11::new(0x10);
const TEST_PACKET_ID_0: PacketId = PacketId::new_for_tc(true, TEST_APID_0);
const TEST_PACKET_ID_1: PacketId = PacketId::new_for_tc(true, TEST_APID_1);

struct PacketAsVec {
    sender_id: ComponentId,
    packet: Vec<u8>,
}

#[derive(Default)]
struct TcCacher {
    tc_queue: RefCell<VecDeque<PacketAsVec>>,
}

impl PacketSenderRaw for TcCacher {
    type Error = ();

    fn spec_accepts_all(&self) -> bool {
        true
    }

    fn spec_sent(&self) -> Vec<(ComponentId, Vec<u8>)> {
        self.tc_queue
            .borrow()
            .iter()
            .map(|p| (p.sender_id, p.packet.clone()))
            .collect()
    }

    fn send_packet(&mut self, sender_id: ComponentId, tc_raw: &[u8]) -> Result<(), Self::Error> {
        self.tc_queue.borrow_mut().push_back(PacketAsVec {
            sender_id,
            packet: tc_raw.to_vec(),
        });
        Ok(())
    }
}

#[derive(Default)]
struct SimpleVerificator {
    enable_second_id: bool,
}

impl SimpleVerificator {
    fn new_with_second_id() -> Self {
        Self {
            enable_second_id: true,
        }
    }
}

impl SpacePacketValidator for SimpleVerificator {
    fn spec_validity(&self, sp_header: &SpHeader, raw_buf: &[u8]) -> SpValidity {
        self.validate(sp_header, raw_buf)
    }

    fn validate(&self, sp_header: &SpHeader, _raw_buf: &[u8]) -> SpValidity {
        if sp_header.packet_id() == TEST_PACKET_ID_0
            || (self.enable_second_id && sp_header.packet_id() == TEST_PACKET_ID_1)
        {
            return SpValidity::Valid;
        }
        SpValidity::Skip
    }
}

fn ping_tc(apid: u11) -> PusTcCreator<'static> {
    PusTcCreator::new_simple(
        SpHeader::new_from_apid(apid),
        MessageTypeId::new(17, 1),
        &[],
        CreatorConfig::default(),
    )
}

fn action_tc(apid: u11) -> PusTcCreator<'static> {
    PusTcCreator::new_simple(
        SpHeader::new_from_apid(apid),
        MessageTypeId::new(8, 0),
        &[],
        CreatorConfig::default(),
    )
}

#[test]
fn ccsds_test_basic() {
    let ping_tc = ping_tc(TEST_APID_0);
    let mut buffer: [u8; 32] = [0; 32];
    let packet_len = ping_tc
        .write_to_bytes(&mut buffer)
        .expect("writing packet failed");
    let mut tc_cacher = TcCacher::default();
    let parse_result = parse_buffer_for_ccsds_space_packets(
        &buffer,
        &SimpleVerificator::default(),
        PARSER_ID,
        &mut tc_cacher,
    );
    assert!(parse_result.is_ok());
    let parse_result = parse_result.unwrap();
    assert_eq!(parse_result.packets_found, 1);
    let mut queue = tc_cacher.tc_queue.borrow_mut();
    assert_eq!(queue.len(), 1);
    let packet_with_sender = queue.pop_front().unwrap();
    assert_eq!(packet_with_sender.packet, buffer[..packet_len]);
    assert_eq!(packet_with_sender.sender_id, PARSER_ID);
}

#[test]
fn test_multi_packet() {
    let ping_tc = ping_tc(TEST_APID_0);
    let action_tc = action_tc(TEST_APID_0);
    let mut buffer: [u8; 32] = [0; 32];
    let packet_len_ping = ping_tc
        .write_to_bytes(&mut buffer)
        .expect("writing packet failed");
    let packet_len_action = action_tc
        .write_to_bytes(&mut buffer[packet_len_ping..])
        .expect("writing packet failed");
    let mut tc_cacher = TcCacher::default();
    let parse_result = parse_buffer_for_ccsds_space_packets(
        &buffer,
        &SimpleVerificator::default(),
        PARSER_ID,
        &mut tc_cacher,
    );
    assert!(parse_result.is_ok());
    let parse_result = parse_result.unwrap();
    assert_eq!(parse_result.packets_found, 2);
    let mut queue = tc_cacher.tc_queue.borrow_mut();
    assert_eq!(queue.len(), 2);
    let packet_with_addr = queue.pop_front().unwrap();
    assert_eq!(packet_with_addr.packet, buffer[..packet_len_ping]);
    assert_eq!(packet_with_addr.sender_id, PARSER_ID);
    let packet_with_addr = queue.pop_front().unwrap();
    assert_eq!(packet_with_addr.sender_id, PARSER_ID);
    assert_eq!(
        packet_with_addr.packet,
        buffer[packet_len_ping..packet_len_ping + packet_len_action]
    );
}

#[test]
fn test_multi_apid() {
    let ping_tc = ping_tc(TEST_APID_0);
    let action_tc = action_tc(TEST_APID_1);
    let mut buffer: [u8; 32] = [0; 32];
    let packet_len_ping = ping_tc
        .write_to_bytes(&mut buffer)
        .expect("writing packet failed");
    let packet_len_action = action_tc
        .write_to_bytes(&mut buffer[packet_len_ping..])
        .expect("writing packet failed");
    let mut tc_cacher = TcCacher::default();
    let verificator = SimpleVerificator::new_with_second_id();
    let parse_result =
        parse_buffer_for_ccsds_space_packets(&buffer, &verificator, PARSER_ID, &mut tc_cacher);
    assert!(parse_result.is_ok());
    let parse_result = parse_result.unwrap();
    assert_eq!(parse_result.packets_found, 2);
    let mut queue = tc_cacher.tc_queue.borrow_mut();
    assert_eq!(queue.len(), 2);
    let packet_with_addr = queue.pop_front().unwrap();
    assert_eq!(packet_with_addr.packet, buffer[..packet_len_ping]);
    let packet_with_addr = queue.pop_front().unwrap();
    assert_eq!(
        packet_with_addr.packet,
        buffer[packet_len_ping..packet_len_ping + packet_len_action]
    );
}

#[test]
fn test_split_packet_multi() {
    let ping_tc = ping_tc(TEST_APID_0);
    let action_tc = action_tc(TEST_APID_1);
    let mut buffer: [u8; 32] = [0; 32];
    let packet_len_ping = ping_tc
        .write_to_bytes(&mut buffer)
        .expect("writing packet failed");
    let packet_len_action = action_tc
        .write_to_bytes(&mut buffer[packet_len_ping..])
        .expect("writing packet failed");
    let mut tc_cacher = TcCacher::default();
    let verificator = SimpleVerificator::new_with_second_id();
    let parse_result = parse_buffer_for_ccsds_space_packets(
        &buffer[..packet_len_ping + packet_len_action - 4],
        &verificator,
        PARSER_ID,
        &mut tc_cacher,
    );
    assert!(parse_result.is_ok());
    let parse_result = parse_result.unwrap();
    assert_eq!(parse_result.packets_found, 1);
    assert!(parse_result.incomplete_tail_start.is_some());
    let incomplete_tail_idx = parse_result.incomplete_tail_start.unwrap();
    assert_eq!(incomplete_tail_idx, packet_len_ping);

    let queue = tc_cacher.tc_queue.borrow();
    assert_eq!(queue.len(), 1);
}

#[test]
fn test_one_split_packet() {
    let ping_tc = ping_tc(TEST_APID_0);
    let mut buffer: [u8; 32] = [0; 32];
    let packet_len_ping = ping_tc
        .write_to_bytes(&mut buffer)
        .expect("writing packet failed");
    let mut tc_cacher = TcCacher::default();

    let verificator = SimpleVerificator::new_with_second_id();
    let parse_result = parse_buffer_for_ccsds_space_packets(
        &buffer[..packet_len_ping - 4],
        &verificator,
        PARSER_ID,
        &mut tc_cacher,
    );
    assert!(parse_result.is_ok());
    let parse_result = parse_result.unwrap();
    assert_eq!(parse_result.packets_found, 0);
    let queue = tc_cacher.tc_queue.borrow();
    assert_eq!(queue.len(), 0);
}

#[test]
fn test_smallest_packet() {
    let ccsds_header_only = SpHeader::new(
        PacketId::new(PacketType::Tc, true, TEST_APID_0),
        PacketSequenceControl::new(SequenceFlags::Unsegmented, u14::new(0)),
        0,
    );
    let mut buf: [u8; 7] = [0; 7];
    ccsds_header_only
        .write_to_slice(&mut buf)
        .expect("writing failed");
    let verificator = SimpleVerificator::default();
    let mut tc_cacher = TcCacher::default();
    let parse_result =
        parse_buffer_for_ccsds_space_packets(&buf, &verificator, PARSER_ID, &mut tc_cacher);
    assert!(parse_result.is_ok());
    let parse_result = parse_result.unwrap();
    assert_eq!(parse_result.packets_found, 1);
}
