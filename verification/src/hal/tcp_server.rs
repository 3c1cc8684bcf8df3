//! Types of the generic TCP TMTC servers.
use vstd::prelude::*;
use crate::tmtc::{concat_all, TmPacketSource};

verus! {

#[verifier::external_type_specification]
#[verifier::external_body]
pub struct ExIoError(std::io::Error);

/// Error of the handling of a connection: of the telemetry source, of the telecommand receiver,
/// or of the connection itself.
#[derive(Debug)]
pub enum TcpTmtcError<TmError, TcError> {
    TmError(TmError),
    TcError(TcError),
    Io(std::io::Error),
}

/// Result of one connection attempt.
#[derive(Debug, Copy, Clone, PartialEq, Eq, Structural)]
pub enum ConnectionResult {
    AcceptTimeout,
    HandledConnections(u32),
}

/// The number of telecommands received and telemetry packets sent on a connection, and whether
/// the server was stopped by a signal.
#[derive(Debug, Default, Copy, Clone, PartialEq, Eq, Structural)]
pub struct HandledConnectionInfo {
    pub num_received_tcs: u32,
    pub num_sent_tms: u32,
    /// The generic TCP server can be stopped using an external signal. If this happened, this
    /// boolean will be set to true.
    pub stopped_by_signal: bool,
}

/// The stream of a connection to which framed telemetry is written.
pub trait TmFrameWriter {
    /// The bytes which were written to the stream so far.
    spec fn spec_written(&self) -> Vec<u8>;

    /// Writes the whole frame; where it succeeds, the frame follows what was written before.
    fn write_all(&mut self, frame: &[u8]) -> (r: Result<(), std::io::Error>)
        ensures
            r is Ok ==> final(self).spec_written()@ == old(self).spec_written()@ + frame@,
    ;
}

/// Concrete telemetry sender of the TCP server for tightly packed space packets: packets are
/// written as they are.
#[derive(Default, Debug, Copy, Clone)]
pub struct SpacepacketsTmSender {}

impl SpacepacketsTmSender {
    /// Writes the telemetry packets of the source to the stream as they are, until the source
    /// has no packet left. Returns whether a packet was sent.
    ///
    /// The sending also ends where the source reports a packet longer than the buffer, and
    /// where the count of sent packets reached its maximum.
    pub fn handle_tm_sending<S: TmPacketSource, W: TmFrameWriter, TcError>(
        &mut self,
        tm_buffer: &mut [u8],
        tm_source: &mut S,
        conn_result: &mut HandledConnectionInfo,
        stream: &mut W,
    ) -> (r: Result<bool, TcpTmtcError<S::Error, TcError>>)
        ensures
            final(conn_result).num_received_tcs == old(conn_result).num_received_tcs,
            final(conn_result).stopped_by_signal == old(conn_result).stopped_by_signal,
            final(conn_result).num_sent_tms >= old(conn_result).num_sent_tms,
            r == Ok::<bool, TcpTmtcError<S::Error, TcError>>(true) ==> final(conn_result).num_sent_tms
                > old(conn_result).num_sent_tms,
            r == Ok::<bool, TcpTmtcError<S::Error, TcError>>(false) ==> final(conn_result).num_sent_tms
                == old(conn_result).num_sent_tms,
            r matches Err(e) ==> e is TmError || e is Io,
            r is Ok ==> ({
                let pk = old(tm_source).spec_packets().deep_view();
                let k = final(conn_result).num_sent_tms - old(conn_result).num_sent_tms;
                &&& k <= pk.len()
                &&& final(stream).spec_written()@ == old(stream).spec_written()@ + concat_all(pk.take(k))
                &&& final(conn_result).num_sent_tms < u32::MAX ==> (k == pk.len() || pk[k].len() == 0 || pk[k].len() > old(tm_buffer)@.len())
            }),
    {
        let ghost pk = tm_source.spec_packets().deep_view();
        let mut tm_was_sent = false;
        while conn_result.num_sent_tms < u32::MAX
            invariant
                conn_result.num_received_tcs == old(conn_result).num_received_tcs,
                conn_result.stopped_by_signal == old(conn_result).stopped_by_signal,
                conn_result.num_sent_tms >= old(conn_result).num_sent_tms,
                tm_was_sent == (conn_result.num_sent_tms > old(conn_result).num_sent_tms),
                pk == old(tm_source).spec_packets().deep_view(),
                tm_buffer@.len() == old(tm_buffer)@.len(),
                conn_result.num_sent_tms - old(conn_result).num_sent_tms <= pk.len(),
                tm_source.spec_packets().deep_view() == pk.skip(conn_result.num_sent_tms - old(conn_result).num_sent_tms),
                stream.spec_written()@ == old(stream).spec_written()@ + concat_all(pk.take(conn_result.num_sent_tms - old(conn_result).num_sent_tms)),
            decreases u32::MAX - conn_result.num_sent_tms,
        {
            let ghost k = conn_result.num_sent_tms - old(conn_result).num_sent_tms;
            let ghost src_before = tm_source.spec_packets();
            proof {
                assert(src_before.deep_view().len() == src_before@.len());
                if src_before@.len() > 0 {
                    assert(src_before.deep_view()[0] == src_before@[0]@);
                    assert(pk.skip(k)[0] == pk[k]);
                }
            }
            // Write TM until TM source is exhausted.
            let read_tm_len = match tm_source.retrieve_packet(tm_buffer) {
                Ok(len) => len,
                Err(e) => {
                    return Err(TcpTmtcError::TmError(e));
                },
            };
            if read_tm_len == 0 || read_tm_len > tm_buffer.len() {
                return Ok(tm_was_sent);
            }
            tm_was_sent = true;
            conn_result.num_sent_tms = conn_result.num_sent_tms + 1;
            let frame = vstd::slice::slice_subrange(tm_buffer, 0, read_tm_len);
            proof {
                assert(frame@ =~= pk[k]);
                assert(pk.take(k + 1).drop_last() =~= pk.take(k));
                assert(pk.skip(k).drop_first() =~= pk.skip(k + 1));
            }
            let written = stream.write_all(frame);
            if let Err(e) = written {
                return Err(TcpTmtcError::Io(e));
            }
        }
        Ok(tm_was_sent)
    }
}

/// The result of one round of accepting connections: the number of handled connections, or an
/// accept timeout where none was handled.
pub fn connection_result(handled_connections: u32) -> (r: ConnectionResult)
    ensures
        handled_connections > 0 ==> r == ConnectionResult::HandledConnections(handled_connections),
        handled_connections == 0 ==> r == ConnectionResult::AcceptTimeout,
{
    if handled_connections > 0 {
        return ConnectionResult::HandledConnections(handled_connections);
    }
    ConnectionResult::AcceptTimeout
}

/// What a read from a client's stream gave.
#[derive(Debug, Copy, Clone, PartialEq, Eq, Structural)]
pub enum ReadOutcome {
    /// The client closed the connection.
    Closed,
    /// This many bytes were read into the telecommand buffer at the write index.
    Received(usize),
    /// Nothing can be read right now (the read would block or timed out).
    NothingAvailable,
    /// The read failed otherwise.
    Failed,
}

/// What the handler of a connection does after a read.
#[derive(Debug, Copy, Clone, PartialEq, Eq, Structural)]
pub enum ReadReaction {
    /// Stop reading; parse the bytes received so far first if `parse_first`, then send the
    /// pending telemetry and hand the connection's result on.
    Finish { parse_first: bool },
    /// Keep reading at this write index.
    KeepReading { write_idx: usize },
    /// The telecommand buffer is full up to this write index: parse it, then keep reading at
    /// the index the parser leaves.
    ParseFullBuffer { write_idx: usize },
    /// Parse the bytes received so far, then send the pending telemetry.
    ParseAndSendTm,
    /// Fail the connection with the read's error.
    Fail,
}

/// What the handler of a connection does after a read that gave `outcome`, with `write_idx`
/// bytes of the telecommand buffer of `buffer_len` bytes filled before it.
pub open spec fn read_reaction(write_idx: int, buffer_len: int, outcome: ReadOutcome) -> ReadReaction {
    match outcome {
        ReadOutcome::Closed => ReadReaction::Finish { parse_first: write_idx > 0 },
        ReadOutcome::Received(n) => if write_idx + n == buffer_len {
            ReadReaction::ParseFullBuffer { write_idx: (write_idx + n) as usize }
        } else {
            ReadReaction::KeepReading { write_idx: (write_idx + n) as usize }
        },
        ReadOutcome::NothingAvailable => ReadReaction::ParseAndSendTm,
        ReadOutcome::Failed => ReadReaction::Fail,
    }
}

/// Decides how the handler of a connection goes on after a read: a closed connection ends the
/// reading (with a last parse where bytes are pending), received bytes advance the write index
/// and are parsed once they fill the buffer, an empty read parses what is pending and sends
/// telemetry, and any other failure ends the connection with an error.
pub fn react_to_read(write_idx: usize, buffer_len: usize, outcome: ReadOutcome) -> (r: ReadReaction)
    requires
        write_idx <= buffer_len,
        outcome matches ReadOutcome::Received(n) ==> write_idx + n <= buffer_len,
    ensures
        r == read_reaction(write_idx as int, buffer_len as int, outcome),
{
    match outcome {
        ReadOutcome::Closed => ReadReaction::Finish { parse_first: write_idx > 0 },
        ReadOutcome::Received(read_len) => {
            let next = write_idx + read_len;
            if next == buffer_len {
                ReadReaction::ParseFullBuffer { write_idx: next }
            } else {
                ReadReaction::KeepReading { write_idx: next }
            }
        },
        ReadOutcome::NothingAvailable => ReadReaction::ParseAndSendTm,
        ReadOutcome::Failed => ReadReaction::Fail,
    }
}

/// What the handler of a connection does after it sent telemetry while no telecommand was
/// pending.
#[derive(Debug, Copy, Clone, PartialEq, Eq, Structural)]
pub enum IdleReaction {
    /// Keep reading right away.
    KeepReading,
    /// Nothing happened on the connection: wait for the inner loop delay, then look at the
    /// stop signal.
    DelayThenCheckStop,
}

/// After the telemetry sending of an empty read: with telemetry sent the handler reads on at
/// once; with none it waits to spare the processor and then looks at the stop signal.
pub fn react_to_tm_sending(tm_was_sent: bool) -> (r: IdleReaction)
    ensures
        r == (if tm_was_sent {
            IdleReaction::KeepReading
        } else {
            IdleReaction::DelayThenCheckStop
        }),
{
    if tm_was_sent {
        IdleReaction::KeepReading
    } else {
        IdleReaction::DelayThenCheckStop
    }
}

/// After the delay of an idle connection: a raised stop signal ends the connection and marks
/// its result as stopped by the signal; otherwise the handler reads on. Returns whether the
/// connection ends.
pub fn stop_after_delay(stop_requested: bool, conn_result: &mut HandledConnectionInfo) -> (r: bool)
    ensures
        r == stop_requested,
        final(conn_result).num_received_tcs == old(conn_result).num_received_tcs,
        final(conn_result).num_sent_tms == old(conn_result).num_sent_tms,
        final(conn_result).stopped_by_signal == (old(conn_result).stopped_by_signal
            || stop_requested),
{
    if stop_requested {
        conn_result.stopped_by_signal = true;
    }
    stop_requested
}

/// Reading never moves the write index past the buffer: every reaction that keeps reading or
/// parses a full buffer names an index no larger than the buffer, and one that parses a full
/// buffer names exactly its end.
pub proof fn law_write_index_stays_in_buffer(write_idx: int, buffer_len: int, outcome: ReadOutcome)
    requires
        0 <= write_idx <= buffer_len <= usize::MAX,
        outcome matches ReadOutcome::Received(n) ==> write_idx + n <= buffer_len,
    ensures
        read_reaction(write_idx, buffer_len, outcome) matches ReadReaction::KeepReading { write_idx: w }
            ==> write_idx <= w < buffer_len,
        read_reaction(write_idx, buffer_len, outcome) matches ReadReaction::ParseFullBuffer { write_idx: w }
            ==> w == buffer_len,
{
}

} // verus!
