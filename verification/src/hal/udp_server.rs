//! Generic UDP TC server: what becomes of a received datagram.
use vstd::prelude::*;
use crate::tmtc::{sent_view, PacketSenderRaw};
use crate::ComponentId;

verus! {

/// Why a UDP telecommand server handed on no telecommand.
#[derive(Debug)]
pub enum ReceiveResult<SendError> {
    /// Nothing was received.
    NothingReceived,
    /// The socket failed.
    Io(std::io::Error),
    /// The telecommand sender failed.
    Send(SendError),
}

/// Hands a received datagram on to the telecommand sender as one telecommand of the server;
/// a failure of the sender is returned as [ReceiveResult::Send].
pub fn forward_received_tc<S: PacketSenderRaw>(
    server_id: ComponentId,
    tc_sender: &mut S,
    tc_raw: &[u8],
) -> (r: Result<(), ReceiveResult<S::Error>>)
    ensures
        r matches Err(e) ==> e is Send,
        r is Ok ==> sent_view(final(tc_sender).spec_sent()) == sent_view(old(tc_sender).spec_sent()).push((server_id, tc_raw@)),
        r is Err ==> sent_view(final(tc_sender).spec_sent()) == sent_view(old(tc_sender).spec_sent()),
        old(tc_sender).spec_accepts_all() ==> r is Ok,
{
    match tc_sender.send_packet(server_id, tc_raw) {
        Ok(()) => Ok(()),
        Err(e) => Err(ReceiveResult::Send(e)),
    }
}

} // verus!
