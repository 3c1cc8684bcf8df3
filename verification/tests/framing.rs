use std::cell::RefCell;

use satrs::cfdp::{FileDirectiveType, PacketInfo, PacketTarget, PduError, PduType};
use satrs::encoding::ccsds::{
    parse_buffer_for_ccsds_space_packets, ParseResult, SpValidity, SpacePacketValidator,
};
use satrs::tmtc::PacketSenderRaw;
use satrs::{ComponentId, ValidatorU16Id};
use spacepackets::SpHeader;

struct AcceptAll;

impl SpacePacketValidator for AcceptAll {
    fn spec_validity(&self, sp_header: &SpHeader, raw_buf: &[u8]) -> SpValidity {
        self.validate(sp_header, raw_buf)
    }

    fn validate(&self, _sp_header: &SpHeader, _raw_buf: &[u8]) -> SpValidity {
        SpValidity::Valid
    }
}

struct SkipApid(u8);

impl SpacePacketValidator for SkipApid {
    fn spec_validity(&self, sp_header: &SpHeader, raw_buf: &[u8]) -> SpValidity {
        self.validate(sp_header, raw_buf)
    }

    fn validate(&self, _sp_header: &SpHeader, raw_buf: &[u8]) -> SpValidity {
        if raw_buf[1] == self.0 {
            SpValidity::Skip
        } else {
            SpValidity::Valid
        }
    }
}

#[derive(Default)]
struct PacketCollector {
    packets: RefCell<Vec<(ComponentId, Vec<u8>)>>,
}

impl PacketSenderRaw for PacketCollector {
    type Error = ();

    fn spec_accepts_all(&self) -> bool {
        true
    }

    fn spec_sent(&self) -> Vec<(ComponentId, Vec<u8>)> {
        self.packets.borrow().clone()
    }

    fn send_packet(&mut self, sender_id: ComponentId, packet: &[u8]) -> Result<(), Self::Error> {
        self.packets.borrow_mut().push((sender_id, packet.to_vec()));
        Ok(())
    }
}

/// A space packet with the given APID byte and user data.
fn space_packet(apid: u8, data: &[u8]) -> Vec<u8> {
    let data_len = (data.len() - 1) as u16;
    let mut packet = vec![0x18, apid, 0xc0, 0x00, (data_len >> 8) as u8, data_len as u8];
    packet.extend_from_slice(data);
    packet
}

#[test]
fn ccsds_parser_forwards_complete_packets() {
    let mut buf = space_packet(2, &[1, 2, 3]);
    buf.extend(space_packet(3, &[4, 5]));
    let mut collector = PacketCollector::default();
    let result = parse_buffer_for_ccsds_space_packets(&buf, &AcceptAll, 5, &mut collector).unwrap();
    assert_eq!(result, ParseResult { packets_found: 2, incomplete_tail_start: None });
    let packets = collector.packets.borrow();
    assert_eq!(packets[0], (5, space_packet(2, &[1, 2, 3])));
    assert_eq!(packets[1], (5, space_packet(3, &[4, 5])));
}

#[test]
fn ccsds_parser_reports_incomplete_tail_and_skips() {
    let mut buf = space_packet(2, &[1, 2, 3]);
    buf.extend(space_packet(7, &[9]));
    let tail_start = buf.len();
    let tail = space_packet(3, &[4, 5, 6, 7]);
    buf.extend_from_slice(&tail[..8]);
    let mut collector = PacketCollector::default();
    let result = parse_buffer_for_ccsds_space_packets(&buf, &SkipApid(7), 1, &mut collector).unwrap();
    assert_eq!(result.packets_found, 1);
    assert_eq!(result.incomplete_tail_start, Some(tail_start));
    assert_eq!(collector.packets.borrow().len(), 1);
}

#[test]
fn ccsds_parser_on_short_buffer_finds_nothing() {
    let mut collector = PacketCollector::default();
    let result = parse_buffer_for_ccsds_space_packets(&[1, 2, 3], &AcceptAll, 1, &mut collector).unwrap();
    assert_eq!(result, ParseResult::default());
}

/// A PDU header with one byte entity IDs and sequence number, followed by the data field.
fn pdu(file_data: bool, data_field: &[u8]) -> Vec<u8> {
    let first = 0x20 | if file_data { 0x10 } else { 0x00 };
    let len = data_field.len() as u16;
    let mut raw = vec![first, (len >> 8) as u8, len as u8, 0x00, 0x01, 0x02, 0x03];
    raw.extend_from_slice(data_field);
    raw
}

#[test]
fn packet_info_routes_file_data_to_destination() {
    let raw = pdu(true, &[0, 0, 0, 0, 1, 2]);
    let info = PacketInfo::new(&raw).unwrap();
    assert_eq!(info.pdu_type(), PduType::FileData);
    assert_eq!(info.pdu_directive(), None);
    assert_eq!(info.target(), PacketTarget::DestEntity);
    assert_eq!(info.raw_packet(), &raw[..]);
}

#[test]
fn packet_info_routes_directives() {
    let cases = [
        (0x04, PacketTarget::DestEntity, FileDirectiveType::EofPdu),
        (0x05, PacketTarget::SourceEntity, FileDirectiveType::FinishedPdu),
        (0x07, PacketTarget::DestEntity, FileDirectiveType::MetadataPdu),
        (0x08, PacketTarget::SourceEntity, FileDirectiveType::NakPdu),
        (0x09, PacketTarget::DestEntity, FileDirectiveType::PromptPdu),
        (0x0c, PacketTarget::SourceEntity, FileDirectiveType::KeepAlivePdu),
    ];
    for (code, target, directive) in cases {
        let raw = pdu(false, &[code, 0]);
        let info = PacketInfo::new(&raw).unwrap();
        assert_eq!(info.pdu_type(), PduType::FileDirective);
        assert_eq!(info.pdu_directive(), Some(directive));
        assert_eq!(info.target(), target);
    }
}

#[test]
fn packet_info_routes_acks_by_acknowledged_directive() {
    let eof_ack = pdu(false, &[0x06, 0x04, 0]);
    assert_eq!(PacketInfo::new(&eof_ack).unwrap().target(), PacketTarget::SourceEntity);
    let finished_ack = pdu(false, &[0x06, 0x05, 0]);
    assert_eq!(PacketInfo::new(&finished_ack).unwrap().target(), PacketTarget::DestEntity);
    let other_ack = pdu(false, &[0x06, 0x07, 0]);
    assert_eq!(
        PacketInfo::new(&other_ack).err(),
        Some(PduError::InvalidDirectiveType { found: 0x07, expected: None })
    );
}

#[test]
fn packet_info_errors() {
    let invalid = pdu(false, &[0x01]);
    assert_eq!(
        PacketInfo::new(&invalid).err(),
        Some(PduError::InvalidDirectiveType { found: 0x01, expected: None })
    );
    let empty_field = pdu(false, &[]);
    assert_eq!(PacketInfo::new(&empty_field).err(), Some(PduError::Format));
    assert!(matches!(PacketInfo::new(&[0x20, 0x00]).err(), Some(PduError::ByteConversion(_))));
    let mut wrong_version = pdu(false, &[0x04]);
    wrong_version[0] = 0x40;
    assert!(matches!(
        PacketInfo::new(&wrong_version).err(),
        Some(PduError::CfdpVersionMissmatch(_))
    ));
}

#[test]
fn packet_info_try_new_refuses_truncated_directive() {
    let mut raw = pdu(false, &[0x06]);
    // The data field claims two bytes but the ACK PDU ends after its directive.
    raw[2] = 2;
    assert!(PacketInfo::try_new(&raw).is_none());
    let ok = pdu(false, &[0x08]);
    assert_eq!(
        PacketInfo::try_new(&ok).unwrap().unwrap().target(),
        PacketTarget::SourceEntity
    );
}

#[test]
fn u16_validators() {
    assert!(5_u16.validate(5));
    assert!(!5_u16.validate(6));
    let ids = vec![1_u16, 4, 9];
    assert!(ids.validate(4));
    assert!(!ids.validate(5));
    let slice: &[u16] = &[1, 4, 9];
    assert!(slice.validate(9));
    assert!(!slice.validate(2));
}
