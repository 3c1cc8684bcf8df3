//! Telecommand and telemetry handling abstractions.
use vstd::prelude::*;
use crate::ComponentId;

verus! {

/// Generic trait for objects which can receive raw telecommand packets.
pub trait ReceivesTcCore {
    type Error;

    /// The telecommands which the receiver took so far, in the order they were passed.
    spec fn spec_received(&self) -> Vec<Vec<u8>>;

    /// Whether the receiver takes every packet passed to it from now on.
    spec fn spec_accepts_all(&self) -> bool;

    /// Pass a raw telecommand packet to the receiver. Where it takes the packet, the packet is
    /// appended to what it received; where it refuses it, what it received stays. A receiver
    /// which takes every packet takes this one and keeps taking every packet.
    fn pass_tc(&mut self, tc_raw: &[u8]) -> (r: Result<(), Self::Error>)
        ensures
            r is Ok ==> final(self).spec_received().deep_view() == old(self).spec_received().deep_view().push(tc_raw@),
            r is Err ==> final(self).spec_received().deep_view() == old(self).spec_received().deep_view(),
            old(self).spec_accepts_all() ==> r is Ok && final(self).spec_accepts_all(),
    ;
}

/// The sent packets as values: each with the ID of the component on whose behalf it was sent.
pub open spec fn sent_view(sent: Vec<(ComponentId, Vec<u8>)>) -> Seq<(ComponentId, Seq<u8>)> {
    sent@.map_values(|e: (ComponentId, Vec<u8>)| (e.0, e.1@))
}

/// Generic trait for objects which can send raw packets on behalf of a sender.
pub trait PacketSenderRaw {
    type Error;

    /// The packets which were sent so far, in order, each with the ID of the component on whose
    /// behalf it was sent.
    spec fn spec_sent(&self) -> Vec<(ComponentId, Vec<u8>)>;

    /// Whether the sender succeeds with every packet from now on.
    spec fn spec_accepts_all(&self) -> bool;

    /// Sends the packet on behalf of the sender; where it succeeds, the packet follows what was
    /// sent before, and where it fails, what was sent stays. A sender which succeeds with every
    /// packet succeeds with this one and keeps doing so.
    fn send_packet(&mut self, sender_id: ComponentId, packet: &[u8]) -> (r: Result<(), Self::Error>)
        ensures
            r is Ok ==> sent_view(final(self).spec_sent()) == sent_view(old(self).spec_sent()).push((sender_id, packet@)),
            r is Err ==> sent_view(final(self).spec_sent()) == sent_view(old(self).spec_sent()),
            old(self).spec_accepts_all() ==> r is Ok && final(self).spec_accepts_all(),
    ;
}

/// The bytes of the parts, one after the other.
pub open spec fn concat_all(parts: Seq<Seq<u8>>) -> Seq<u8>
    decreases parts.len(),
{
    if parts.len() == 0 {
        Seq::empty()
    } else {
        concat_all(parts.drop_last()) + parts.last()
    }
}

/// Generic trait for objects which hand out telemetry packets.
pub trait TmPacketSource {
    type Error;

    /// The packets which the source still holds, in the order in which it hands them out.
    spec fn spec_packets(&self) -> Vec<Vec<u8>>;

    /// Writes the next packet to the buffer and returns its length, or 0 where there is none.
    ///
    /// A packet which is handed out leaves the source; where it fits, it stands at the start of
    /// the buffer.
    fn retrieve_packet(&mut self, buffer: &mut [u8]) -> (r: Result<usize, Self::Error>)
        ensures
            final(buffer)@.len() == old(buffer)@.len(),
            r == Ok::<usize, Self::Error>(0) ==> old(self).spec_packets()@.len() == 0 || old(self).spec_packets()@[0]@.len() == 0,
            r matches Ok(n) ==> n > 0 ==> {
                let pk = old(self).spec_packets().deep_view();
                &&& pk.len() > 0
                &&& n == pk[0].len()
                &&& final(self).spec_packets().deep_view() == pk.drop_first()
                &&& n <= old(buffer)@.len() ==> final(buffer)@.take(n as int) == pk[0]
            },
    ;
}

} // verus!
