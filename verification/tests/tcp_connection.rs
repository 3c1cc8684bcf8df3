use satrs::hal::udp_server::{forward_received_tc, ReceiveResult};
use satrs::hal::tcp_server::{connection_result, ConnectionResult, SpacepacketsTmSender};
use satrs::hal::tcp_server::{
    react_to_read, react_to_tm_sending, stop_after_delay, HandledConnectionInfo, IdleReaction,
    ReadOutcome, ReadReaction,
};

#[test]
fn closed_connection_parses_pending_bytes_only() {
    assert_eq!(
        react_to_read(0, 16, ReadOutcome::Closed),
        ReadReaction::Finish { parse_first: false }
    );
    assert_eq!(
        react_to_read(5, 16, ReadOutcome::Closed),
        ReadReaction::Finish { parse_first: true }
    );
}

#[test]
fn received_bytes_advance_and_fill_the_buffer() {
    assert_eq!(
        react_to_read(3, 16, ReadOutcome::Received(4)),
        ReadReaction::KeepReading { write_idx: 7 }
    );
    assert_eq!(
        react_to_read(12, 16, ReadOutcome::Received(4)),
        ReadReaction::ParseFullBuffer { write_idx: 16 }
    );
}

#[test]
fn empty_read_parses_and_sends_tm_and_failures_fail() {
    assert_eq!(
        react_to_read(3, 16, ReadOutcome::NothingAvailable),
        ReadReaction::ParseAndSendTm
    );
    assert_eq!(react_to_read(3, 16, ReadOutcome::Failed), ReadReaction::Fail);
}

#[test]
fn idle_connection_delays_then_checks_stop_signal() {
    assert_eq!(react_to_tm_sending(true), IdleReaction::KeepReading);
    assert_eq!(react_to_tm_sending(false), IdleReaction::DelayThenCheckStop);
    let mut info = HandledConnectionInfo { num_received_tcs: 2, num_sent_tms: 3, stopped_by_signal: false };
    assert!(!stop_after_delay(false, &mut info));
    assert!(!info.stopped_by_signal);
    assert!(stop_after_delay(true, &mut info));
    assert!(info.stopped_by_signal);
    assert_eq!(info.num_received_tcs, 2);
    assert_eq!(info.num_sent_tms, 3);
}

#[test]
fn accept_round_result() {
    assert_eq!(connection_result(0), ConnectionResult::AcceptTimeout);
    assert_eq!(connection_result(3), ConnectionResult::HandledConnections(3));
}

struct RecordingSender {
    fail: bool,
    sent: std::cell::RefCell<Vec<(u32, Vec<u8>)>>,
}

impl satrs::tmtc::PacketSenderRaw for RecordingSender {
    type Error = &'static str;

    fn spec_accepts_all(&self) -> bool {
        !self.fail
    }

    fn spec_sent(&self) -> Vec<(u32, Vec<u8>)> {
        self.sent.borrow().clone()
    }

    fn send_packet(&mut self, sender_id: u32, packet: &[u8]) -> Result<(), Self::Error> {
        if self.fail {
            return Err("queue full");
        }
        self.sent.borrow_mut().push((sender_id, packet.to_vec()));
        Ok(())
    }
}

#[test]
fn received_datagram_is_forwarded_as_telecommand() {
    let mut sender = RecordingSender { fail: false, sent: Default::default() };
    assert!(forward_received_tc(0x05, &mut sender, &[1, 2, 3]).is_ok());
    assert_eq!(sender.sent.borrow().as_slice(), &[(0x05, vec![1, 2, 3])]);
    let mut failing = RecordingSender { fail: true, sent: Default::default() };
    assert!(matches!(
        forward_received_tc(0x05, &mut failing, &[1]),
        Err(ReceiveResult::Send("queue full"))
    ));
}

struct QueueSource {
    packets: std::collections::VecDeque<Vec<u8>>,
}

impl satrs::tmtc::TmPacketSource for QueueSource {
    type Error = ();

    fn spec_packets(&self) -> Vec<Vec<u8>> {
        self.packets.iter().cloned().collect()
    }

    fn retrieve_packet(&mut self, buffer: &mut [u8]) -> Result<usize, Self::Error> {
        match self.packets.pop_front() {
            Some(p) => {
                buffer[..p.len()].copy_from_slice(&p);
                Ok(p.len())
            }
            None => Ok(0),
        }
    }
}

#[derive(Default)]
struct CollectingWriter {
    written: Vec<u8>,
}

impl satrs::hal::tcp_server::TmFrameWriter for CollectingWriter {
    fn spec_written(&self) -> Vec<u8> {
        self.written.clone()
    }

    fn write_all(&mut self, frame: &[u8]) -> Result<(), std::io::Error> {
        self.written.extend_from_slice(frame);
        Ok(())
    }
}

#[test]
fn space_packets_are_written_as_they_are() {
    let mut source = QueueSource { packets: vec![vec![1, 2, 3], vec![4, 5]].into() };
    let mut writer = CollectingWriter::default();
    let mut info = HandledConnectionInfo::default();
    let mut buffer = [0u8; 16];
    let mut sender = SpacepacketsTmSender::default();
    let sent = sender.handle_tm_sending::<_, _, ()>(&mut buffer, &mut source, &mut info, &mut writer);
    assert!(matches!(sent, Ok(true)));
    assert_eq!(writer.written, vec![1, 2, 3, 4, 5]);
    assert_eq!(info.num_sent_tms, 2);
    let sent = sender.handle_tm_sending::<_, _, ()>(&mut buffer, &mut source, &mut info, &mut writer);
    assert!(matches!(sent, Ok(false)));
    assert_eq!(info.num_sent_tms, 2);
}
