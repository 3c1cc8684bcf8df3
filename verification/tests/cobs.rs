use satrs::hal::tcp_cobs_server::{CobsTcParser, CobsTmSender};
use satrs::hal::tcp_server::HandledConnectionInfo;
use satrs::encoding::cobs::{encode_packet_with_cobs, parse_buffer_for_cobs_encoded_packets};
use satrs::tmtc::ReceivesTcCore;

const SIMPLE_PACKET: [u8; 5] = [1, 2, 3, 4, 5];
const INVERTED_PACKET: [u8; 5] = [5, 4, 3, 2, 1];

#[derive(Default)]
struct TcCacher {
    tc_queue: Vec<Vec<u8>>,
}

impl ReceivesTcCore for TcCacher {
    type Error = ();

    fn spec_received(&self) -> Vec<Vec<u8>> {
        self.tc_queue.clone()
    }

    fn spec_accepts_all(&self) -> bool {
        true
    }

    fn pass_tc(&mut self, tc_raw: &[u8]) -> Result<(), Self::Error> {
        self.tc_queue.push(tc_raw.to_vec());
        Ok(())
    }
}

struct FailingReceiver {
    calls: usize,
}

impl ReceivesTcCore for FailingReceiver {
    type Error = u32;

    fn spec_received(&self) -> Vec<Vec<u8>> {
        Vec::new()
    }

    fn spec_accepts_all(&self) -> bool {
        false
    }

    fn pass_tc(&mut self, _tc_raw: &[u8]) -> Result<(), Self::Error> {
        self.calls += 1;
        Err(7)
    }
}

fn encode_simple_packet(encoded_buf: &mut [u8], current_idx: &mut usize) {
    encode_packet_with_cobs(&SIMPLE_PACKET, encoded_buf, current_idx);
}

#[test]
fn test_parsing_simple_packet() {
    let mut test_sender = TcCacher::default();
    let mut encoded_buf: [u8; 16] = [0; 16];
    let mut current_idx = 0;
    encode_simple_packet(&mut encoded_buf, &mut current_idx);
    let mut next_read_idx = 0;
    let packets = parse_buffer_for_cobs_encoded_packets(
        &mut encoded_buf[0..current_idx],
        &mut test_sender,
        &mut next_read_idx,
    )
    .unwrap();
    assert_eq!(packets, 1);
    assert_eq!(test_sender.tc_queue.len(), 1);
    let packet = &test_sender.tc_queue[0];
    assert_eq!(packet, &SIMPLE_PACKET);
}

#[test]
fn test_parsing_consecutive_packets() {
    let mut test_sender = TcCacher::default();
    let mut encoded_buf: [u8; 16] = [0; 16];
    let mut current_idx = 0;
    encode_simple_packet(&mut encoded_buf, &mut current_idx);

    // Second packet
    encoded_buf[current_idx] = 0;
    current_idx += 1;
    current_idx += cobs::encode(&INVERTED_PACKET, &mut encoded_buf[current_idx..]);
    encoded_buf[current_idx] = 0;
    current_idx += 1;
    let mut next_read_idx = 0;
    let packets = parse_buffer_for_cobs_encoded_packets(
        &mut encoded_buf[0..current_idx],
        &mut test_sender,
        &mut next_read_idx,
    )
    .unwrap();
    assert_eq!(packets, 2);
    assert_eq!(test_sender.tc_queue.len(), 2);
    let packet0 = &test_sender.tc_queue[0];
    assert_eq!(packet0, &SIMPLE_PACKET);
    let packet1 = &test_sender.tc_queue[1];
    assert_eq!(packet1, &INVERTED_PACKET);
}

#[test]
fn test_split_tail_packet_only() {
    let mut test_sender = TcCacher::default();
    let mut encoded_buf: [u8; 16] = [0; 16];
    let mut current_idx = 0;
    encode_simple_packet(&mut encoded_buf, &mut current_idx);
    let mut next_read_idx = 0;
    let packets = parse_buffer_for_cobs_encoded_packets(
        // Cut off the sentinel byte at the end.
        &mut encoded_buf[0..current_idx - 1],
        &mut test_sender,
        &mut next_read_idx,
    )
    .unwrap();
    assert_eq!(packets, 0);
    assert_eq!(test_sender.tc_queue.len(), 0);
    assert_eq!(next_read_idx, 0);
}

fn generic_test_split_packet(cut_off: usize) {
    let mut test_sender = TcCacher::default();
    let mut encoded_buf: [u8; 16] = [0; 16];
    assert!(cut_off < INVERTED_PACKET.len() + 1);
    let mut current_idx = 0;
    encode_simple_packet(&mut encoded_buf, &mut current_idx);
    // Second packet
    encoded_buf[current_idx] = 0;
    let packet_start = current_idx;
    current_idx += 1;
    let encoded_len = cobs::encode(&INVERTED_PACKET, &mut encoded_buf[current_idx..]);
    assert_eq!(encoded_len, 6);
    current_idx += encoded_len;
    // We cut off the sentinel byte, so we expecte the write index to be the length of the
    // packet minus the sentinel byte plus the first sentinel byte.
    let next_expected_write_idx = 1 + encoded_len - cut_off + 1;
    encoded_buf[current_idx] = 0;
    current_idx += 1;
    let mut next_write_idx = 0;
    let expected_at_start = encoded_buf[packet_start..current_idx - cut_off].to_vec();
    let packets = parse_buffer_for_cobs_encoded_packets(
        // Cut off the sentinel byte at the end.
        &mut encoded_buf[0..current_idx - cut_off],
        &mut test_sender,
        &mut next_write_idx,
    )
    .unwrap();
    assert_eq!(packets, 1);
    assert_eq!(test_sender.tc_queue.len(), 1);
    assert_eq!(&test_sender.tc_queue[0], &SIMPLE_PACKET);
    assert_eq!(next_write_idx, next_expected_write_idx);
    assert_eq!(encoded_buf[..next_expected_write_idx], expected_at_start);
}

#[test]
fn test_one_packet_and_split_tail_packet_0() {
    generic_test_split_packet(1);
}

#[test]
fn test_one_packet_and_split_tail_packet_1() {
    generic_test_split_packet(2);
}

#[test]
fn test_one_packet_and_split_tail_packet_2() {
    generic_test_split_packet(3);
}

#[test]
fn test_zero_at_end() {
    let mut test_sender = TcCacher::default();
    let mut encoded_buf: [u8; 16] = [0; 16];
    let mut next_write_idx = 0;
    let mut current_idx = 0;
    encoded_buf[current_idx] = 5;
    current_idx += 1;
    encode_simple_packet(&mut encoded_buf, &mut current_idx);
    encoded_buf[current_idx] = 0;
    current_idx += 1;
    let packets = parse_buffer_for_cobs_encoded_packets(
        // Cut off the sentinel byte at the end.
        &mut encoded_buf[0..current_idx],
        &mut test_sender,
        &mut next_write_idx,
    )
    .unwrap();
    assert_eq!(packets, 1);
    assert_eq!(test_sender.tc_queue.len(), 1);
    assert_eq!(&test_sender.tc_queue[0], &SIMPLE_PACKET);
    assert_eq!(next_write_idx, 1);
    assert_eq!(encoded_buf[0], 0);
}

#[test]
fn test_all_zeroes() {
    let mut test_sender = TcCacher::default();
    let mut all_zeroes: [u8; 5] = [0; 5];
    let mut next_write_idx = 0;
    let packets = parse_buffer_for_cobs_encoded_packets(
        // Cut off the sentinel byte at the end.
        &mut all_zeroes,
        &mut test_sender,
        &mut next_write_idx,
    )
    .unwrap();
    assert_eq!(packets, 0);
    assert!(test_sender.tc_queue.is_empty());
    assert_eq!(next_write_idx, 0);
}

#[test]
fn encode_two_packets_into_one_buffer() {
    let mut encoding_buf: [u8; 32] = [0; 32];
    let mut current_idx = 0;
    assert!(encode_packet_with_cobs(&SIMPLE_PACKET, &mut encoding_buf, &mut current_idx));
    assert!(encode_packet_with_cobs(&INVERTED_PACKET, &mut encoding_buf, &mut current_idx));
    assert_eq!(encoding_buf[0], 0);
    assert_eq!(current_idx, 16);
    assert_eq!(encoding_buf[..8], [0, 6, 1, 2, 3, 4, 5, 0]);
    assert_eq!(encoding_buf[8..16], [0, 6, 5, 4, 3, 2, 1, 0]);
}

#[test]
fn encode_fails_on_small_buffer_and_leaves_it_unchanged() {
    let mut encoding_buf: [u8; 7] = [9; 7];
    let mut current_idx = 0;
    assert!(!encode_packet_with_cobs(&SIMPLE_PACKET, &mut encoding_buf, &mut current_idx));
    assert_eq!(current_idx, 0);
    assert_eq!(encoding_buf, [9; 7]);
}

#[test]
fn encode_then_parse_gives_back_the_packet() {
    let mut encoding_buf: [u8; 64] = [0; 64];
    let mut current_idx = 0;
    let packet: Vec<u8> = (0..40u8).collect();
    assert!(encode_packet_with_cobs(&packet, &mut encoding_buf, &mut current_idx));
    let mut receiver = TcCacher::default();
    let mut next_write_idx = 0;
    let found = parse_buffer_for_cobs_encoded_packets(
        &mut encoding_buf[..current_idx],
        &mut receiver,
        &mut next_write_idx,
    )
    .unwrap();
    assert_eq!(found, 1);
    assert_eq!(receiver.tc_queue, vec![packet]);
}

#[test]
fn receiver_error_is_returned() {
    let mut encoded_buf: [u8; 16] = [0; 16];
    let mut current_idx = 0;
    encode_simple_packet(&mut encoded_buf, &mut current_idx);
    let mut receiver = FailingReceiver { calls: 0 };
    let mut next_write_idx = 0;
    let result = parse_buffer_for_cobs_encoded_packets(
        &mut encoded_buf[..current_idx],
        &mut receiver,
        &mut next_write_idx,
    );
    assert_eq!(result, Err(7));
    assert_eq!(receiver.calls, 1);
}

struct TmQueue {
    packets: Vec<Vec<u8>>,
}

impl satrs::tmtc::TmPacketSource for TmQueue {
    type Error = ();

    fn spec_packets(&self) -> Vec<Vec<u8>> {
        self.packets.clone()
    }

    fn retrieve_packet(&mut self, buffer: &mut [u8]) -> Result<usize, Self::Error> {
        if self.packets.is_empty() {
            return Ok(0);
        }
        let packet = self.packets.remove(0);
        buffer[..packet.len()].copy_from_slice(&packet);
        Ok(packet.len())
    }
}

#[derive(Default)]
struct StreamMock {
    written: Vec<u8>,
}

impl satrs::hal::tcp_server::TmFrameWriter for StreamMock {
    fn spec_written(&self) -> Vec<u8> {
        self.written.clone()
    }

    fn write_all(&mut self, frame: &[u8]) -> Result<(), std::io::Error> {
        self.written.extend_from_slice(frame);
        Ok(())
    }
}

#[test]
fn cobs_tm_sender_frames_all_packets() {
    let mut sender = CobsTmSender::new(16);
    let mut source = TmQueue { packets: vec![SIMPLE_PACKET.to_vec(), INVERTED_PACKET.to_vec()] };
    let mut conn = HandledConnectionInfo::default();
    let mut stream = StreamMock::default();
    let mut tm_buffer = [0_u8; 16];
    let sent = sender
        .handle_tm_sending::<_, _, ()>(&mut tm_buffer, &mut source, &mut conn, &mut stream)
        .unwrap();
    assert!(sent);
    assert_eq!(conn.num_sent_tms, 2);
    assert_eq!(stream.written, vec![0, 6, 1, 2, 3, 4, 5, 0, 0, 6, 5, 4, 3, 2, 1, 0]);
    let sent_again = sender
        .handle_tm_sending::<_, _, ()>(&mut tm_buffer, &mut source, &mut conn, &mut stream)
        .unwrap();
    assert!(!sent_again);
}

#[test]
fn cobs_tc_parser_counts_received_telecommands() {
    let mut buf = [0_u8; 32];
    let mut idx = 0;
    encode_packet_with_cobs(&SIMPLE_PACKET, &mut buf, &mut idx);
    encode_packet_with_cobs(&INVERTED_PACKET, &mut buf, &mut idx);
    let mut parser = CobsTcParser::default();
    let mut receiver = TcCacher::default();
    let mut conn = HandledConnectionInfo::default();
    let mut next_write_idx = 0;
    parser
        .handle_tc_parsing::<_, ()>(&mut buf, &mut receiver, &mut conn, idx, &mut next_write_idx)
        .unwrap();
    assert_eq!(conn.num_received_tcs, 2);
    assert_eq!(receiver.tc_queue, vec![SIMPLE_PACKET.to_vec(), INVERTED_PACKET.to_vec()]);
}
