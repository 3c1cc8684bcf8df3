//! The COBS flavour of the TCP TMTC server: telecommands and telemetry are framed with COBS and
//! the sentinel value 0.
use vstd::prelude::*;
use crate::encoding::cobs::{cobs_encoding, cobs_max_encoding_length, cobs_ok_count, cobs_packets, cobs_parsed_buffer, cobs_scan, cobs_tail_moved, encode_packet_with_cobs, parse_buffer_for_cobs_encoded_packets, spec_max_encoding_length};
use crate::hal::tcp_server::{HandledConnectionInfo, TcpTmtcError, TmFrameWriter};
use crate::tmtc::{concat_all, ReceivesTcCore, TmPacketSource};

verus! {

/// Telecommand parser of the COBS server.
#[derive(Default, Debug, Copy, Clone)]
pub struct CobsTcParser {}

impl CobsTcParser {
    /// Parses the bytes received so far for COBS frames, passes the decoded telecommands to the
    /// receiver and counts them. A split frame at the end is moved to the start of the buffer.
    pub fn handle_tc_parsing<R: ReceivesTcCore, TmError>(
        &mut self,
        tc_buffer: &mut [u8],
        tc_receiver: &mut R,
        conn_result: &mut HandledConnectionInfo,
        current_write_idx: usize,
        next_write_idx: &mut usize,
    ) -> (r: Result<(), TcpTmtcError<TmError, R::Error>>)
        requires
            current_write_idx <= old(tc_buffer)@.len(),
            old(conn_result).num_received_tcs + current_write_idx / 2 <= u32::MAX,
        ensures
            final(tc_buffer)@.len() == old(tc_buffer)@.len(),
            final(tc_buffer)@.skip(current_write_idx as int) == old(tc_buffer)@.skip(current_write_idx as int),
            final(conn_result).num_sent_tms == old(conn_result).num_sent_tms,
            final(conn_result).stopped_by_signal == old(conn_result).stopped_by_signal,
            r is Ok ==> old(conn_result).num_received_tcs <= final(conn_result).num_received_tcs <= old(conn_result).num_received_tcs + current_write_idx / 2,
            r is Err ==> *final(conn_result) == *old(conn_result) && r->Err_0 is TcError,
            ({
                let b = old(tc_buffer)@.take(current_write_idx as int);
                let scan = cobs_scan(b, b.len());
                let count = cobs_ok_count(b, scan.2);
                &&& count == 0 ==> r is Ok
                &&& old(tc_receiver).spec_accepts_all() ==> r is Ok
                &&& r is Ok ==> {
                    &&& final(tc_receiver).spec_received().deep_view() == old(tc_receiver).spec_received().deep_view() + cobs_packets(b, scan.2)
                    &&& final(conn_result).num_received_tcs == old(conn_result).num_received_tcs + count
                    &&& final(tc_buffer)@.take(current_write_idx as int) == cobs_parsed_buffer(b)
                    &&& *final(next_write_idx) == if cobs_tail_moved(b) {
                        b.len() - scan.0 + 1
                    } else {
                        *old(next_write_idx) as int
                    }
                }
            }),
    {
        let mut received = vstd::slice::slice_to_vec(vstd::slice::slice_subrange(tc_buffer, 0, current_write_idx));
        let ghost before = received@;
        assert(before =~= old(tc_buffer)@.take(current_write_idx as int));
        let parsed = parse_buffer_for_cobs_encoded_packets(received.as_mut_slice(), tc_receiver, next_write_idx);
        let ghost orig = tc_buffer@;
        let mut i: usize = 0;
        while i < current_write_idx
            invariant
                current_write_idx <= orig.len(),
                tc_buffer@.len() == orig.len(),
                received@.len() == current_write_idx,
                i <= current_write_idx,
                tc_buffer@.skip(current_write_idx as int) == orig.skip(current_write_idx as int),
                forall|k: int| 0 <= k < i ==> tc_buffer@[k] == received@[k],
            decreases current_write_idx - i,
        {
            let v = received[i];
            tc_buffer[i] = v;
            proof {
                assert(tc_buffer@.skip(current_write_idx as int) =~= orig.skip(current_write_idx as int));
            }
            i += 1;
        }
        assert(tc_buffer@.take(current_write_idx as int) =~= received@);
        match parsed {
            Ok(found) => {
                conn_result.num_received_tcs = conn_result.num_received_tcs + found;
                Ok(())
            },
            Err(e) => Err(TcpTmtcError::TcError(e)),
        }
    }
}

/// The frame of a packet: its COBS encoding, wrapped in the sentinel value 0.
pub open spec fn cobs_frame(packet: Seq<u8>) -> Seq<u8> {
    seq![0u8] + cobs_encoding(packet) + seq![0u8]
}

/// Telemetry sender of the COBS server: each telemetry packet is encoded with COBS, wrapped with
/// the sentinel value 0 and written to the stream.
#[derive(Debug)]
pub struct CobsTmSender {
    tm_encoding_buffer: Vec<u8>,
}

impl CobsTmSender {
    pub closed spec fn spec_encoding_buffer_len(self) -> nat {
        self.tm_encoding_buffer@.len()
    }

    /// A sender whose encoding buffer holds the framed encoding of a telemetry packet of up to
    /// `tm_buffer_size` bytes.
    pub fn new(tm_buffer_size: usize) -> (r: Self)
        requires
            spec_max_encoding_length(tm_buffer_size as nat) + 3 <= usize::MAX,
        ensures
            r.spec_encoding_buffer_len() == spec_max_encoding_length(tm_buffer_size as nat) + 3,
    {
        let len = cobs_max_encoding_length(tm_buffer_size) + 3;
        Self { tm_encoding_buffer: vec![0u8; len] }
    }

    /// Writes the telemetry packets of the source to the stream, each encoded with COBS and
    /// wrapped with the sentinel value 0, until the source has no packet left. Returns whether a
    /// packet was sent.
    ///
    /// The sending also ends where a packet does not fit in the telemetry buffer or in the
    /// encoding buffer, and where the count of sent packets reached its maximum.
    pub fn handle_tm_sending<S: TmPacketSource, W: TmFrameWriter, TcError>(
        &mut self,
        tm_buffer: &mut [u8],
        tm_source: &mut S,
        conn_result: &mut HandledConnectionInfo,
        stream: &mut W,
    ) -> (r: Result<bool, TcpTmtcError<S::Error, TcError>>)
        ensures
            final(conn_result).num_received_tcs == old(conn_result).num_received_tcs,
            final(conn_result).stopped_by_signal == old(conn_result).stopped_by_signal,
            final(conn_result).num_sent_tms >= old(conn_result).num_sent_tms,
            r == Ok::<bool, TcpTmtcError<S::Error, TcError>>(true) ==> final(conn_result).num_sent_tms > old(conn_result).num_sent_tms,
            r == Ok::<bool, TcpTmtcError<S::Error, TcError>>(false) ==> final(conn_result).num_sent_tms == old(conn_result).num_sent_tms,
            r matches Err(e) ==> e is TmError || e is Io,
            final(self).spec_encoding_buffer_len() == old(self).spec_encoding_buffer_len(),
            r is Ok ==> ({
                let pk = old(tm_source).spec_packets().deep_view();
                let k = final(conn_result).num_sent_tms - old(conn_result).num_sent_tms;
                &&& k <= pk.len()
                &&& final(stream).spec_written()@ == old(stream).spec_written()@ + concat_all(pk.take(k).map_values(|p: Seq<u8>| cobs_frame(p)))
                &&& final(conn_result).num_sent_tms < u32::MAX ==> (k == pk.len() || pk[k].len() == 0 || pk[k].len() > old(tm_buffer)@.len()
                    || pk[k].len() > usize::MAX / 2 || spec_max_encoding_length(pk[k].len()) + 3 > old(self).spec_encoding_buffer_len())
            }),
    {
        let ghost pk = tm_source.spec_packets().deep_view();
        let mut tm_was_sent = false;
        while conn_result.num_sent_tms < u32::MAX
            invariant
                conn_result.num_received_tcs == old(conn_result).num_received_tcs,
                conn_result.stopped_by_signal == old(conn_result).stopped_by_signal,
                conn_result.num_sent_tms >= old(conn_result).num_sent_tms,
                tm_was_sent == (conn_result.num_sent_tms > old(conn_result).num_sent_tms),
                self.spec_encoding_buffer_len() == old(self).spec_encoding_buffer_len(),
                pk == old(tm_source).spec_packets().deep_view(),
                tm_buffer@.len() == old(tm_buffer)@.len(),
                conn_result.num_sent_tms - old(conn_result).num_sent_tms <= pk.len(),
                tm_source.spec_packets().deep_view() == pk.skip(conn_result.num_sent_tms - old(conn_result).num_sent_tms),
                stream.spec_written()@ == old(stream).spec_written()@ + concat_all(pk.take(conn_result.num_sent_tms - old(conn_result).num_sent_tms).map_values(|p: Seq<u8>| cobs_frame(p))),
            decreases u32::MAX - conn_result.num_sent_tms,
        {
            let ghost k = conn_result.num_sent_tms - old(conn_result).num_sent_tms;
            let ghost src_before = tm_source.spec_packets();
            proof {
                assert(src_before.deep_view().len() == src_before@.len());
                if src_before@.len() > 0 {
                    assert(src_before.deep_view()[0] == src_before@[0]@);
                    assert(pk.skip(k)[0] == pk[k]);
                }
            }
            // Write TM until TM source is exhausted.
            let read_tm_len = match tm_source.retrieve_packet(tm_buffer) {
                Ok(len) => len,
                Err(e) => {
                    return Err(TcpTmtcError::TmError(e));
                },
            };
            if read_tm_len == 0 || read_tm_len > tm_buffer.len() {
                return Ok(tm_was_sent);
            }
            if read_tm_len > usize::MAX / 2 {
                return Ok(tm_was_sent);
            }
            let max_len = cobs_max_encoding_length(read_tm_len);
            if max_len > usize::MAX - 3 || max_len + 3 > self.tm_encoding_buffer.len() {
                return Ok(tm_was_sent);
            }
            let packet = &tm_buffer[0..read_tm_len];
            let mut current_idx: usize = 0;
            let encoded = encode_packet_with_cobs(packet, self.tm_encoding_buffer.as_mut_slice(), &mut current_idx);
            tm_was_sent = true;
            conn_result.num_sent_tms = conn_result.num_sent_tms + 1;
            if encoded {
                let frame = vstd::slice::slice_subrange(self.tm_encoding_buffer.as_slice(), 0, current_idx);
                proof {
                    assert(packet@ =~= pk[k]);
                    assert(frame@ =~= cobs_frame(pk[k]));
                    let framed = pk.take(k + 1).map_values(|p: Seq<u8>| cobs_frame(p));
                    assert(framed.drop_last() =~= pk.take(k).map_values(|p: Seq<u8>| cobs_frame(p)));
                    assert(framed.last() == cobs_frame(pk[k]));
                    assert(pk.skip(k).drop_first() =~= pk.skip(k + 1));
                }
                let written = stream.write_all(frame);
                if let Err(e) = written {
                    return Err(TcpTmtcError::Io(e));
                }
            }
        }
        Ok(tm_was_sent)
    }
}

} // verus!
