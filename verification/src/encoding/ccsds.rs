//! Parsing of buffers which hold tightly packed CCSDS space packets.
use vstd::prelude::*;
use spacepackets::SpHeader;
use crate::tmtc::{sent_view, PacketSenderRaw};
use crate::ComponentId;

verus! {

#[verifier::external_type_specification]
#[verifier::external_body]
pub struct ExSpHeader(spacepackets::SpHeader);

#[derive(Debug, Copy, Clone, PartialEq, Eq, Structural)]
pub enum SpValidity {
    Valid,
    /// The space packet can be assumed to have a valid format, but the packet should
    /// be skipped.
    Skip,
    /// The space packet or space packet header has an invalid format, for example a CRC check
    /// failed. In that case, the parser loses the packet synchronization and needs to check for
    /// the start of a new space packet header start again.
    Invalid,
}

/// Simple trait to allow user code to check the validity of a space packet.
pub trait SpacePacketValidator {
    /// The verdict on the space packet with the header, whose bytes start the buffer.
    spec fn spec_validity(&self, sp_header: &SpHeader, raw_buf: &[u8]) -> SpValidity;

    fn validate(&self, sp_header: &SpHeader, raw_buf: &[u8]) -> (r: SpValidity)
        ensures
            r == self.spec_validity(sp_header, raw_buf),
    ;
}

/// The header which `spacepackets::SpHeader::from_be_bytes` reads from the start of the bytes.
pub uninterp spec fn sp_header_from(bytes: Seq<u8>) -> SpHeader;

/// The validator's verdict on the packet whose header starts at each index of the buffer: on
/// the header read there and the bytes from there on.
pub open spec fn validator_verdict<V: SpacePacketValidator>(validator: &V, buf: Seq<u8>) -> spec_fn(int) -> SpValidity {
    |i: int| validator.spec_validity(&sp_header_from(buf.skip(i)), choose|s: &[u8]| s@ == buf.skip(i))
}

#[derive(Default, Debug, Copy, Clone, PartialEq, Eq, Structural)]
pub struct ParseResult {
    pub packets_found: u32,
    /// If an incomplete space packet was found, its start index is indicated by this value.
    pub incomplete_tail_start: Option<usize>,
}

/// The length of the space packet whose header starts at `start`: the data length field (the
/// big-endian value of the header's fifth and sixth byte) plus the header length 6 plus 1.
pub open spec fn packet_len_at(buf: Seq<u8>, start: int) -> int {
    buf[start + 4] as int * 256 + buf[start + 5] as int + 7
}

/// The outcome of the scan of a buffer from index `idx` on, with `found` packets counted and the
/// incomplete tail packet `tail` recorded so far, where `verdict` gives the validator's verdict
/// on the packet whose header starts at each index: complete valid packets are counted, an
/// incomplete valid one is recorded as the tail, both are stepped over like skipped ones, and an
/// invalid header moves the scan on by one byte. The scan ends where fewer than 7 bytes are left.
pub open spec fn ccsds_scan(
    buf: Seq<u8>,
    verdict: spec_fn(int) -> SpValidity,
    idx: int,
    found: int,
    tail: Option<usize>,
) -> (int, Option<usize>)
    decreases buf.len() + 0x2_0000 - idx,
{
    if idx < 0 || idx + 7 > buf.len() {
        (found, tail)
    } else {
        let len = packet_len_at(buf, idx);
        proof {
            assert(7 <= len <= 0x1_0006);
        }
        match verdict(idx) {
            SpValidity::Valid => if idx + len <= buf.len() {
                ccsds_scan(buf, verdict, idx + len, found + 1, tail)
            } else {
                ccsds_scan(buf, verdict, idx + len, found, Some(idx as usize))
            },
            SpValidity::Skip => ccsds_scan(buf, verdict, idx + len, found, tail),
            SpValidity::Invalid => ccsds_scan(buf, verdict, idx + 1, found, tail),
        }
    }
}

/// The complete valid packets which the scan of a buffer from index `idx` on (as in
/// [ccsds_scan]) meets, in order.
pub open spec fn ccsds_valid_packets(buf: Seq<u8>, verdict: spec_fn(int) -> SpValidity, idx: int) -> Seq<Seq<u8>>
    decreases buf.len() + 0x2_0000 - idx,
{
    if idx < 0 || idx + 7 > buf.len() {
        Seq::empty()
    } else {
        let len = packet_len_at(buf, idx);
        proof {
            assert(7 <= len <= 0x1_0006);
        }
        match verdict(idx) {
            SpValidity::Valid => if idx + len <= buf.len() {
                seq![buf.subrange(idx, idx + len)] + ccsds_valid_packets(buf, verdict, idx + len)
            } else {
                ccsds_valid_packets(buf, verdict, idx + len)
            },
            SpValidity::Skip => ccsds_valid_packets(buf, verdict, idx + len),
            SpValidity::Invalid => ccsds_valid_packets(buf, verdict, idx + 1),
        }
    }
}

/// After an invalid header at index `i`, the scan goes on at the next byte: a complete valid
/// packet which starts right after it is found and counted, whatever length field the broken
/// header holds.
pub proof fn law_resync_after_invalid_header(buf: Seq<u8>, verdict: spec_fn(int) -> SpValidity, i: int, found: int, tail: Option<usize>)
    requires
        0 <= i,
        i + 1 + 7 <= buf.len(),
        verdict(i) == SpValidity::Invalid,
        verdict(i + 1) == SpValidity::Valid,
        i + 1 + packet_len_at(buf, i + 1) <= buf.len(),
    ensures
        ccsds_valid_packets(buf, verdict, i) == seq![buf.subrange(i + 1, i + 1 + packet_len_at(buf, i + 1))]
            + ccsds_valid_packets(buf, verdict, i + 1 + packet_len_at(buf, i + 1)),
        ccsds_scan(buf, verdict, i, found, tail) == ccsds_scan(buf, verdict, i + 1 + packet_len_at(buf, i + 1), found + 1, tail),
{
    let len = packet_len_at(buf, i + 1);
    assert(ccsds_valid_packets(buf, verdict, i) == ccsds_valid_packets(buf, verdict, i + 1));
    assert(ccsds_valid_packets(buf, verdict, i + 1) == seq![buf.subrange(i + 1, i + 1 + len)]
        + ccsds_valid_packets(buf, verdict, i + 1 + len));
    assert(ccsds_scan(buf, verdict, i, found, tail) == ccsds_scan(buf, verdict, i + 1, found, tail));
    assert(ccsds_scan(buf, verdict, i + 1, found, tail) == ccsds_scan(buf, verdict, i + 1 + len, found + 1, tail));
}

/// The packets with the ID of the component on whose behalf they are sent.
pub open spec fn sent_on_behalf(id: ComponentId, packets: Seq<Seq<u8>>) -> Seq<(ComponentId, Seq<u8>)> {
    packets.map_values(|p: Seq<u8>| (id, p))
}

/// Whether `verdict` gives the verdicts recorded in `seen`.
pub open spec fn verdicts_agree(verdict: spec_fn(int) -> SpValidity, seen: Map<int, SpValidity>) -> bool {
    forall|i: int| #[trigger] seen.dom().contains(i) ==> verdict(i) == seen[i]
}

/// Calls `spacepackets::SpHeader::from_be_bytes` on the bytes from `start` and
/// `SpHeader::packet_len` on the header.
///
/// Claimed of the calls: with at least 6 bytes from `start`, the parse succeeds, the header is
/// the one read from the bytes from `start` on ([sp_header_from]), and the packet length is the
/// data length field of the header plus 7, as [packet_len_at] states.
#[verifier::external_body]
fn sp_header_at(buf: &[u8], start: usize) -> (r: (SpHeader, usize))
    requires
        start + 6 <= buf@.len(),
    ensures
        r.0 == sp_header_from(buf@.skip(start as int)),
        r.1 == packet_len_at(buf@, start as int),
{
    let (header, _) = SpHeader::from_be_bytes(&buf[start..]).unwrap();
    let len = header.packet_len();
    (header, len)
}

/// This function parses a given buffer for tightly packed CCSDS space packets. It uses the
/// space packet header of the CCSDS packets and a user provided [SpacePacketValidator]
/// to check whether a received space packet is relevant for processing.
///
/// The parser behaves differently based on the [SpValidity] returned from the validator:
///
///  1. [SpValidity::Valid]: The parser forwards the packet to the given `packet_sender` when it
///     lies completely in the buffer, and records the start of an incomplete tail packet
///     otherwise. An error of the sender is returned.
///  2. [SpValidity::Invalid]: The parser assumes that the synchronization is lost and tries to
///     find the start of a new space packet header by scanning all the following bytes.
///  3. [SpValidity::Skip]: The parser skips the packet using the packet length determined from
///     the space packet header.
///
/// Parsing stops where fewer than 7 bytes are left.
pub fn parse_buffer_for_ccsds_space_packets<V: SpacePacketValidator, S: PacketSenderRaw>(
    buf: &[u8],
    packet_validator: &V,
    sender_id: ComponentId,
    packet_sender: &mut S,
) -> (r: Result<ParseResult, S::Error>)
    requires
        buf@.len() + 0x2_0000 <= usize::MAX,
        buf@.len() / 7 <= u32::MAX,
    ensures
        buf@.len() < 7 ==> r == Ok::<ParseResult, S::Error>(ParseResult { packets_found: 0, incomplete_tail_start: None }),
        r matches Ok(res) ==> res.packets_found <= buf@.len() / 7,
        r matches Ok(res) ==> (res.incomplete_tail_start matches Some(i) ==> i + 7 <= buf@.len() && i + packet_len_at(buf@, i as int) > buf@.len()),
        r matches Ok(res) ==> ccsds_scan(buf@, validator_verdict(packet_validator, buf@), 0, 0, None) == (res.packets_found as int, res.incomplete_tail_start),
        r is Ok ==> sent_view(final(packet_sender).spec_sent()) == sent_view(old(packet_sender).spec_sent()) + sent_on_behalf(sender_id, ccsds_valid_packets(buf@, validator_verdict(packet_validator, buf@), 0)),
        old(packet_sender).spec_accepts_all() ==> r is Ok,
{
    let mut parse_result = ParseResult { packets_found: 0, incomplete_tail_start: None };
    let mut current_idx: usize = 0;
    let buf_len = buf.len();
    let ghost mut seen: Map<int, SpValidity> = Map::empty();
    let ghost mut sent: Seq<Seq<u8>> = Seq::empty();
    while current_idx + 7 <= buf_len
        invariant
            buf_len == buf@.len(),
            buf_len + 0x2_0000 <= usize::MAX,
            buf_len / 7 <= u32::MAX,
            buf_len < 7 ==> parse_result == (ParseResult { packets_found: 0, incomplete_tail_start: None }),
            current_idx <= buf_len + 0x1_0007,
            parse_result.packets_found <= current_idx / 7,
            parse_result.packets_found as int * 7 <= current_idx,
            parse_result.packets_found as int * 7 <= buf_len,
            parse_result.incomplete_tail_start matches Some(i) ==> i + 7 <= buf_len && i + packet_len_at(buf@, i as int) > buf_len,
            forall|i: int| #[trigger] seen.dom().contains(i) ==> i < current_idx,
            forall|verdict: spec_fn(int) -> SpValidity| verdicts_agree(verdict, seen) ==>
                #[trigger] ccsds_scan(buf@, verdict, 0, 0, None) == ccsds_scan(buf@, verdict, current_idx as int, parse_result.packets_found as int, parse_result.incomplete_tail_start),
            forall|verdict: spec_fn(int) -> SpValidity| verdicts_agree(verdict, seen) ==>
                #[trigger] ccsds_valid_packets(buf@, verdict, 0) == sent + ccsds_valid_packets(buf@, verdict, current_idx as int),
            verdicts_agree(validator_verdict(packet_validator, buf@), seen),
            sent_view(packet_sender.spec_sent()) == sent_view(old(packet_sender).spec_sent()) + sent_on_behalf(sender_id, sent),
            old(packet_sender).spec_accepts_all() ==> packet_sender.spec_accepts_all(),
        decreases buf_len + 0x2_0000 - current_idx,
    {
        let (sp_header, packet_size) = sp_header_at(buf, current_idx);
        let raw = vstd::slice::slice_subrange(buf, current_idx, buf_len);
        let validity = packet_validator.validate(&sp_header, raw);
        let ghost before_idx = current_idx as int;
        let ghost before_result = parse_result;
        let ghost before_seen = seen;
        let ghost before_sent = sent;
        proof {
            let w = choose|s: &[u8]| s@ == buf@.skip(current_idx as int);
            assert(raw@ =~= buf@.skip(current_idx as int));
            assert(w@ == buf@.skip(current_idx as int));
            assert(w =~= raw);
            assert(validator_verdict(packet_validator, buf@)(current_idx as int) == validity);
            seen = seen.insert(current_idx as int, validity);
            assert(verdicts_agree(validator_verdict(packet_validator, buf@), seen)) by {
                assert forall|i: int| #[trigger] seen.dom().contains(i) implies validator_verdict(packet_validator, buf@)(i) == seen[i] by {
                    if i != current_idx {
                        assert(before_seen.dom().contains(i));
                    }
                }
            }
        }
        match validity {
            SpValidity::Valid => {
                if current_idx + packet_size <= buf_len {
                    assert((parse_result.packets_found + 1) * 7 <= current_idx + packet_size);
                    assert((current_idx + packet_size) / 7 <= buf_len / 7) by (nonlinear_arith)
                        requires current_idx + packet_size <= buf_len;
                    let packet = vstd::slice::slice_subrange(buf, current_idx, current_idx + packet_size);
                    let sent_result = packet_sender.send_packet(sender_id, packet);
                    if let Err(e) = sent_result {
                        return Err(e);
                    }
                    proof {
                        sent = sent.push(packet@);
                        assert(sent_on_behalf(sender_id, sent) =~= sent_on_behalf(sender_id, before_sent).push((sender_id, packet@)));
                    }
                    parse_result.packets_found += 1;
                } else {
                    // Move packet to start of buffer if applicable.
                    parse_result.incomplete_tail_start = Some(current_idx);
                }
                current_idx += packet_size;
            },
            SpValidity::Skip => {
                current_idx += packet_size;
            },
            // We might have lost sync. Try to find the start of a new space packet header.
            SpValidity::Invalid => {
                current_idx += 1;
            },
        }
        proof {
            assert forall|verdict: spec_fn(int) -> SpValidity| verdicts_agree(verdict, seen) implies
                #[trigger] ccsds_valid_packets(buf@, verdict, 0) == sent + ccsds_valid_packets(buf@, verdict, current_idx as int) by {
                assert(seen.dom().contains(before_idx));
                assert(verdict(before_idx) == validity);
                assert(verdicts_agree(verdict, before_seen)) by {
                    assert forall|i: int| #[trigger] before_seen.dom().contains(i) implies verdict(i) == before_seen[i] by {
                        assert(seen.dom().contains(i));
                    }
                }
                if validity == SpValidity::Valid && before_idx + packet_size <= buf_len {
                    assert(sent == before_sent.push(buf@.subrange(before_idx, before_idx + packet_size)));
                    assert(before_sent + ccsds_valid_packets(buf@, verdict, before_idx) =~= sent + ccsds_valid_packets(buf@, verdict, current_idx as int));
                }
            }
            assert forall|verdict: spec_fn(int) -> SpValidity| verdicts_agree(verdict, seen) implies
                #[trigger] ccsds_scan(buf@, verdict, 0, 0, None) == ccsds_scan(buf@, verdict, current_idx as int, parse_result.packets_found as int, parse_result.incomplete_tail_start) by {
                assert(seen.dom().contains(before_idx));
                assert(verdict(before_idx) == validity);
                assert(verdicts_agree(verdict, before_seen)) by {
                    assert forall|i: int| #[trigger] before_seen.dom().contains(i) implies verdict(i) == before_seen[i] by {
                        assert(seen.dom().contains(i));
                    }
                }
            }
        }
    }
    proof {
        let verdict = validator_verdict(packet_validator, buf@);
        assert(ccsds_scan(buf@, verdict, current_idx as int, parse_result.packets_found as int, parse_result.incomplete_tail_start)
            == (parse_result.packets_found as int, parse_result.incomplete_tail_start));
        assert(ccsds_scan(buf@, verdict, 0, 0, None) == (parse_result.packets_found as int, parse_result.incomplete_tail_start));
        assert(ccsds_valid_packets(buf@, verdict, current_idx as int) == Seq::<Seq<u8>>::empty());
        assert(sent + Seq::<Seq<u8>>::empty() =~= sent);
    }
    assert(parse_result.packets_found <= buf_len / 7) by (nonlinear_arith)
        requires parse_result.packets_found as int * 7 <= buf_len;
    Ok(parse_result)
}

} // verus!
