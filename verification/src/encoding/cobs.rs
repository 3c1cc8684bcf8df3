//! COBS framing of packets.
//!
//! Packets are encoded with the Consistent Overhead Byte Stuffing (COBS) algorithm and wrapped
//! with the sentinel value 0 on both sides:
//!
//! 0 | ... Encoded Packet Data ... | 0 | 0 | ... Encoded Packet Data ... | 0
use vstd::prelude::*;
use crate::tmtc::ReceivesTcCore;

verus! {

/// Maximum length of the COBS encoding of a message of `source_len` bytes.
pub open spec fn spec_max_encoding_length(source_len: nat) -> nat {
    source_len + source_len / 254 + if source_len % 254 > 0 {
        1nat
    } else {
        0nat
    }
}

/// The number of non-zero bytes of the message from index `i` on, up to index 254.
pub open spec fn cobs_run(p: Seq<u8>, i: nat) -> nat
    decreases p.len() - i,
{
    if i >= p.len() || i >= 254 || p[i as int] == 0 {
        i
    } else {
        cobs_run(p, i + 1)
    }
}

/// The run of non-zero bytes from `i` on ends within the message and by index 254.
pub proof fn lemma_cobs_run_bounds(p: Seq<u8>, i: nat)
    requires
        i <= p.len(),
        i <= 254,
    ensures
        i <= cobs_run(p, i) <= p.len(),
        cobs_run(p, i) <= 254,
    decreases p.len() - i,
{
    if !(i >= p.len() || i >= 254 || p[i as int] == 0) {
        lemma_cobs_run_bounds(p, i + 1);
    }
}

/// The COBS blocks of a non-empty message: each block is a code byte, one more than the number
/// of non-zero bytes it holds, and those bytes. A block of 254 non-zero bytes has the code 255
/// and ends without a zero byte; any other block stands for its bytes and the zero byte after
/// them, or the end of the message. A message which ends right after a block of 254 bytes or a
/// zero byte gets an empty last block.
pub open spec fn cobs_blocks(p: Seq<u8>) -> Seq<u8>
    decreases p.len(),
{
    let k = cobs_run(p, 0);
    proof {
        lemma_cobs_run_bounds(p, 0);
    }
    if k == 254 {
        seq![255u8] + p.take(254) + cobs_blocks(p.skip(254))
    } else if k < p.len() {
        seq![(k + 1) as u8] + p.take(k as int) + cobs_blocks(p.skip(k + 1int))
    } else {
        seq![(k + 1) as u8] + p
    }
}

/// The bytes of the run from `i` on are not zero.
proof fn lemma_cobs_run_nonzero(p: Seq<u8>, i: nat)
    requires
        i <= p.len(),
        i <= 254,
    ensures
        forall|j: int| i <= j < cobs_run(p, i) ==> p[j] != 0,
    decreases p.len() - i,
{
    if !(i >= p.len() || i >= 254 || p[i as int] == 0) {
        lemma_cobs_run_nonzero(p, i + 1);
    }
}

/// The COBS blocks of a message hold no zero byte: each code byte is between 1 and 255, and
/// the bytes of each block are those of a run of non-zero bytes.
pub proof fn lemma_cobs_blocks_no_zero(p: Seq<u8>)
    ensures
        forall|j: int| 0 <= j < cobs_blocks(p).len() ==> #[trigger] cobs_blocks(p)[j] != 0,
    decreases p.len(),
{
    let k = cobs_run(p, 0);
    lemma_cobs_run_bounds(p, 0);
    lemma_cobs_run_nonzero(p, 0);
    let b = cobs_blocks(p);
    if k == 254 {
        let rest = p.skip(254);
        lemma_cobs_blocks_no_zero(rest);
        assert(b == seq![255u8] + p.take(254) + cobs_blocks(rest));
        assert forall|j: int| 0 <= j < b.len() implies #[trigger] b[j] != 0 by {
            if j == 0 {
            } else if j < 255 {
                assert(b[j] == p[j - 1]);
            } else {
                assert(b[j] == cobs_blocks(rest)[j - 255]);
            }
        }
    } else if k < p.len() {
        let rest = p.skip(k + 1int);
        lemma_cobs_blocks_no_zero(rest);
        assert(b == seq![(k + 1) as u8] + p.take(k as int) + cobs_blocks(rest));
        assert forall|j: int| 0 <= j < b.len() implies #[trigger] b[j] != 0 by {
            if j == 0 {
            } else if j < k + 1 {
                assert(b[j] == p[j - 1]);
            } else {
                assert(b[j] == cobs_blocks(rest)[j - k - 1]);
            }
        }
    } else {
        assert(b == seq![(k + 1) as u8] + p);
        assert forall|j: int| 0 <= j < b.len() implies #[trigger] b[j] != 0 by {
            if j > 0 {
                assert(b[j] == p[j - 1]);
            }
        }
    }
}

/// The COBS blocks of a message are at most one byte longer than the message and one byte per
/// 254 bytes of it.
pub proof fn lemma_cobs_blocks_len(p: Seq<u8>)
    ensures
        p.len() + 1 <= cobs_blocks(p).len() <= p.len() + p.len() / 254 + 1,
    decreases p.len(),
{
    let k = cobs_run(p, 0);
    lemma_cobs_run_bounds(p, 0);
    let n = p.len();
    if k == 254 {
        let rest = p.skip(254);
        lemma_cobs_blocks_len(rest);
        assert(cobs_blocks(p).len() == 255 + cobs_blocks(rest).len());
        assert((n - 254) / 254 == n / 254 - 1) by (nonlinear_arith)
            requires n >= 254;
    } else if k < n {
        let rest = p.skip(k + 1int);
        lemma_cobs_blocks_len(rest);
        assert(cobs_blocks(p).len() == k + 1 + cobs_blocks(rest).len());
        assert((n - k - 1) / 254 <= n / 254) by (nonlinear_arith)
            requires k < n;
    }
}

/// The COBS encoding of a message, as produced by `cobs::encode`: empty for an empty message,
/// and the blocks of the message otherwise.
pub open spec fn cobs_encoding(source: Seq<u8>) -> Seq<u8> {
    if source.len() == 0 {
        Seq::empty()
    } else {
        cobs_blocks(source)
    }
}

/// The index of the first zero byte of the buffer from index `i` on, or its length where there
/// is none.
pub open spec fn cobs_first_zero(b: Seq<u8>, i: nat) -> nat
    decreases b.len() - i,
{
    if i >= b.len() {
        b.len()
    } else if b[i as int] == 0 {
        i
    } else {
        cobs_first_zero(b, i + 1)
    }
}

/// The in-place decoding of the blocks from source index `src` on, which writes from
/// destination index `dst` on and stops at `end`: a block starts with a code byte; the `code - 1`
/// bytes after it are copied to the destination, followed by a zero byte unless the code is 255
/// or the block ends at `end`. A block which runs past `end` is a decoding error, and the buffer
/// keeps what was written before it. The result is the buffer and, without an error, the length
/// of the decoded message.
pub open spec fn cobs_decode_blocks(buf: Seq<u8>, end: int, src: int, dst: int) -> (Seq<u8>, Option<usize>)
    decreases end - src,
{
    if src < 0 || src >= end {
        (buf, Some(dst as usize))
    } else {
        let code = buf[src] as int;
        if src + code > end && code != 1 {
            (buf, None)
        } else if code == 0 {
            (buf, None)
        } else {
            let copied = Seq::new(buf.len(), |j: int| if dst <= j < dst + code - 1 { buf[src + 1 + (j - dst)] } else { buf[j] });
            let src2 = src + code;
            let dst2 = dst + code - 1;
            if code != 255 && src2 < end {
                cobs_decode_blocks(copied.update(dst2, 0u8), end, src2, dst2 + 1)
            } else {
                cobs_decode_blocks(copied, end, src2, dst2)
            }
        }
    }
}

/// The in-place COBS decoding of a buffer, as performed by `cobs::decode_in_place`: the new
/// contents of the buffer, and the length of the decoded message or `None` on a decoding error.
/// The decoding stops at the first zero byte.
pub open spec fn cobs_in_place_decoding(encoded: Seq<u8>) -> (Seq<u8>, Option<usize>) {
    cobs_decode_blocks(encoded, cobs_first_zero(encoded, 0) as int, 0, 0)
}

/// The run from `i` on stops at a zero byte where it ends before the end of the message and
/// before index 254.
proof fn lemma_cobs_run_stop(p: Seq<u8>, i: nat)
    requires
        i <= p.len(),
        i <= 254,
    ensures
        cobs_run(p, i) < p.len() && cobs_run(p, i) < 254 ==> p[cobs_run(p, i) as int] == 0,
    decreases p.len() - i,
{
    if !(i >= p.len() || i >= 254 || p[i as int] == 0) {
        lemma_cobs_run_stop(p, i + 1);
    }
}

/// A buffer without zero bytes from `i` on has its first zero byte at its end.
proof fn lemma_first_zero_at_end(b: Seq<u8>, i: nat)
    requires
        forall|j: int| i <= j < b.len() ==> b[j] != 0,
    ensures
        cobs_first_zero(b, i) == b.len(),
    decreases b.len() - i,
{
    if i < b.len() {
        lemma_first_zero_at_end(b, i + 1);
    }
}

/// Decoding in place the blocks of a message, which stand in the buffer from `src` to `end`,
/// with the writing position `dst` not after `src`, writes the message from `dst` on, keeps the
/// buffer before `dst` and gives the end of the message.
proof fn lemma_decode_blocks(buf: Seq<u8>, end: int, src: int, dst: int, q: Seq<u8>)
    requires
        0 <= dst <= src,
        src + cobs_blocks(q).len() == end,
        end <= buf.len(),
        buf.subrange(src, end) == cobs_blocks(q),
    ensures
        cobs_decode_blocks(buf, end, src, dst).1 == Some((dst + q.len()) as usize),
        cobs_decode_blocks(buf, end, src, dst).0.len() == buf.len(),
        cobs_decode_blocks(buf, end, src, dst).0.subrange(dst, dst + q.len()) == q,
        cobs_decode_blocks(buf, end, src, dst).0.take(dst) == buf.take(dst),
    decreases q.len(),
{
    let n = q.len();
    let k = cobs_run(q, 0);
    lemma_cobs_run_bounds(q, 0);
    lemma_cobs_run_nonzero(q, 0);
    lemma_cobs_run_stop(q, 0);
    let b = cobs_blocks(q);
    assert(buf[src] == b[0]);
    let code = buf[src] as int;
    if k == 254 {
        let rest = q.skip(254);
        assert(b == seq![255u8] + q.take(254) + cobs_blocks(rest));
        lemma_cobs_blocks_len(rest);
        let copied = Seq::new(buf.len(), |j: int| if dst <= j < dst + code - 1 { buf[src + 1 + (j - dst)] } else { buf[j] });
        let src2 = src + code;
        let dst2 = dst + code - 1;
        assert(code == 255);
        assert(copied.subrange(src2, end) =~= cobs_blocks(rest)) by {
            assert forall|j: int| 0 <= j < end - src2 implies #[trigger] copied.subrange(src2, end)[j] == cobs_blocks(rest)[j] by {
                assert(buf.subrange(src, end)[255 + j] == b[255 + j]);
            }
        }
        lemma_decode_blocks(copied, end, src2, dst2, rest);
        let r = cobs_decode_blocks(copied, end, src2, dst2);
        assert(cobs_decode_blocks(buf, end, src, dst) == r);
        assert(r.0.subrange(dst, dst + n) =~= q) by {
            assert forall|j: int| 0 <= j < n implies #[trigger] r.0.subrange(dst, dst + n)[j] == q[j] by {
                if j < 254 {
                    assert(r.0.take(dst2)[dst + j] == copied.take(dst2)[dst + j]);
                    assert(buf.subrange(src, end)[1 + j] == b[1 + j]);
                } else {
                    assert(r.0.subrange(dst2, dst2 + rest.len())[j - 254] == rest[j - 254]);
                }
            }
        }
        assert(r.0.take(dst) =~= buf.take(dst)) by {
            assert forall|j: int| 0 <= j < dst implies #[trigger] r.0.take(dst)[j] == buf.take(dst)[j] by {
                assert(r.0.take(dst2)[j] == copied.take(dst2)[j]);
            }
        }
    } else if k < n {
        let rest = q.skip(k + 1int);
        assert(b == seq![(k + 1) as u8] + q.take(k as int) + cobs_blocks(rest));
        lemma_cobs_blocks_len(rest);
        let copied = Seq::new(buf.len(), |j: int| if dst <= j < dst + code - 1 { buf[src + 1 + (j - dst)] } else { buf[j] });
        let src2 = src + code;
        let dst2 = dst + code - 1;
        assert(code == k + 1);
        let copied2 = copied.update(dst2, 0u8);
        assert(copied2.subrange(src2, end) =~= cobs_blocks(rest)) by {
            assert forall|j: int| 0 <= j < end - src2 implies #[trigger] copied2.subrange(src2, end)[j] == cobs_blocks(rest)[j] by {
                assert(buf.subrange(src, end)[k + 1 + j] == b[k + 1 + j]);
            }
        }
        lemma_decode_blocks(copied2, end, src2, dst2 + 1, rest);
        let r = cobs_decode_blocks(copied2, end, src2, dst2 + 1);
        assert(cobs_decode_blocks(buf, end, src, dst) == r);
        assert(r.0.subrange(dst, dst + n) =~= q) by {
            assert forall|j: int| 0 <= j < n implies #[trigger] r.0.subrange(dst, dst + n)[j] == q[j] by {
                if j < k {
                    assert(r.0.take(dst2 + 1)[dst + j] == copied2.take(dst2 + 1)[dst + j]);
                    assert(buf.subrange(src, end)[1 + j] == b[1 + j]);
                } else if j == k {
                    assert(r.0.take(dst2 + 1)[dst + j] == copied2.take(dst2 + 1)[dst + j]);
                } else {
                    assert(r.0.subrange(dst2 + 1, dst2 + 1 + rest.len())[j - k - 1] == rest[j - k - 1]);
                }
            }
        }
        assert(r.0.take(dst) =~= buf.take(dst)) by {
            assert forall|j: int| 0 <= j < dst implies #[trigger] r.0.take(dst)[j] == buf.take(dst)[j] by {
                assert(r.0.take(dst2 + 1)[j] == copied2.take(dst2 + 1)[j]);
            }
        }
    } else {
        assert(b == seq![(k + 1) as u8] + q);
        let copied = Seq::new(buf.len(), |j: int| if dst <= j < dst + code - 1 { buf[src + 1 + (j - dst)] } else { buf[j] });
        assert(code == n + 1);
        assert(cobs_decode_blocks(buf, end, src, dst) == cobs_decode_blocks(copied, end, src + code, dst + code - 1));
        assert(cobs_decode_blocks(copied, end, src + code, dst + code - 1) == (copied, Some((dst + n) as usize)));
        assert(copied.subrange(dst, dst + n) =~= q) by {
            assert forall|j: int| 0 <= j < n implies #[trigger] copied.subrange(dst, dst + n)[j] == q[j] by {
                assert(buf.subrange(src, end)[1 + j] == b[1 + j]);
            }
        }
        assert(copied.take(dst) =~= buf.take(dst));
    }
}

/// Decoding the COBS encoding of a non-empty message in place gives back the message.
pub proof fn lemma_cobs_round_trip(p: Seq<u8>)
    requires
        p.len() > 0,
    ensures
        cobs_in_place_decoding(cobs_encoding(p)).1 == Some(p.len() as usize),
        cobs_in_place_decoding(cobs_encoding(p)).0.take(p.len() as int) == p,
{
    let e = cobs_blocks(p);
    lemma_cobs_blocks_no_zero(p);
    lemma_first_zero_at_end(e, 0);
    assert(e.subrange(0, e.len() as int) =~= e);
    lemma_decode_blocks(e, e.len() as int, 0, 0, p);
    assert(cobs_in_place_decoding(e).0.subrange(0, p.len() as int) =~= cobs_in_place_decoding(e).0.take(p.len() as int));
}

/// Calls `cobs::max_encoding_length`, which returns
/// `source_len + source_len / 254 + (1 if source_len % 254 > 0 else 0)`.
#[verifier::external_body]
pub(crate) fn cobs_max_encoding_length(source_len: usize) -> (r: usize)
    requires
        spec_max_encoding_length(source_len as nat) <= usize::MAX,
    ensures
        r == spec_max_encoding_length(source_len as nat),
{
    ::cobs::max_encoding_length(source_len)
}

/// Calls `cobs::encode` on `source`, with `dest` starting at `start`.
///
/// Claimed of the call: it writes the encoding [cobs_encoding] of `source` to the destination
/// from `start` on and returns its length; it writes nothing else. When the destination holds,
/// from `start` on, at least one byte more than [spec_max_encoding_length], the call does not
/// panic. That the encoding holds no zero byte, how long it is at most, and that decoding it in
/// place gives back the message follow from [cobs_encoding] ([lemma_cobs_blocks_no_zero],
/// [lemma_cobs_blocks_len], [lemma_cobs_round_trip]).
#[verifier::external_body]
fn cobs_encode_at(source: &[u8], dest: &mut [u8], start: usize) -> (r: usize)
    requires
        start <= old(dest)@.len(),
        old(dest)@.len() - start >= spec_max_encoding_length(source@.len()) + 1,
    ensures
        r == cobs_encoding(source@).len(),
        final(dest)@ == old(dest)@.take(start as int) + cobs_encoding(source@) + old(dest)@.skip(
            start + r,
        ),
{
    ::cobs::encode(source, &mut dest[start..])
}

/// Calls `cobs::decode_in_place` on the bytes of `buf` in `start..end`.
///
/// Claimed of the call: it does not panic, replaces the range by the first component of
/// [cobs_in_place_decoding] of the range and returns its second component (`Ok(n)` for
/// `Some(n)`, `Err(())` for `None`); the buffer outside the range is unchanged and the decoded
/// length is at most the length of the range.
#[verifier::external_body]
fn cobs_decode_in_place_range(buf: &mut [u8], start: usize, end: usize) -> (r: Result<usize, ()>)
    requires
        start <= end <= old(buf)@.len(),
    ensures
        final(buf)@ == old(buf)@.take(start as int) + cobs_in_place_decoding(
            old(buf)@.subrange(start as int, end as int),
        ).0 + old(buf)@.skip(end as int),
        final(buf)@.len() == old(buf)@.len(),
        r matches Ok(n) ==> cobs_in_place_decoding(old(buf)@.subrange(start as int, end as int)).1
            == Some(n),
        r is Err ==> cobs_in_place_decoding(old(buf)@.subrange(start as int, end as int)).1 is None,
        r matches Ok(n) ==> n <= end - start,
{
    ::cobs::decode_in_place(&mut buf[start..end])
}

/// This function encodes the given packet with COBS and also wraps the encoded packet with
/// the sentinel value 0. It can be used repeatedly on the same encoded buffer by expecting
/// and incrementing the mutable reference of the current packet index. This is also used
/// to retrieve the total encoded size.
///
/// This function will return [false] if the given encoding buffer is not large enough to hold
/// the encoded buffer and the two sentinel bytes and [true] if the encoding was successfull.
pub fn encode_packet_with_cobs(packet: &[u8], encoded_buf: &mut [u8], current_idx: &mut usize) -> (r:
    bool)
    requires
        *old(current_idx) + spec_max_encoding_length(packet@.len()) + 2 <= usize::MAX,
        !(packet@.len() > 0 && packet@.len() % 254 == 0 && *old(current_idx)
            + spec_max_encoding_length(packet@.len()) + 2 == old(encoded_buf)@.len()),
    ensures
        final(encoded_buf)@.len() == old(encoded_buf)@.len(),
        r == (*old(current_idx) + spec_max_encoding_length(packet@.len()) + 2 <= old(
            encoded_buf,
        )@.len()),
        !r ==> final(encoded_buf)@ == old(encoded_buf)@ && *final(current_idx) == *old(current_idx),
        r ==> {
            let enc = cobs_encoding(packet@);
            &&& *final(current_idx) == *old(current_idx) + enc.len() + 2
            &&& final(encoded_buf)@ == old(encoded_buf)@.take(*old(current_idx) as int) + seq![0u8]
                + enc + seq![0u8] + old(encoded_buf)@.skip(*old(current_idx) + enc.len() + 2)
            &&& forall|k: int| 0 <= k < enc.len() ==> #[trigger] enc[k] != 0
            &&& packet@.len() > 0 ==> ({
                let frame = seq![0u8] + enc + seq![0u8];
                cobs_packets(frame, cobs_scan(frame, frame.len()).2) == seq![packet@]
            })
        },
{
    let max_encoding_len = cobs_max_encoding_length(packet.len());
    if *current_idx + max_encoding_len + 2 > encoded_buf.len() {
        return false;
    }
    let ghost orig = encoded_buf@;
    let ghost idx0 = *current_idx;
    encoded_buf[*current_idx] = 0;
    *current_idx += 1;
    let ghost mid = encoded_buf@;
    let written = cobs_encode_at(packet, encoded_buf, *current_idx);
    proof {
        lemma_cobs_blocks_len(packet@);
    }
    *current_idx += written;
    let ghost mid2 = encoded_buf@;
    encoded_buf[*current_idx] = 0;
    *current_idx += 1;
    proof {
        let enc = cobs_encoding(packet@);
        if packet@.len() > 0 {
            lemma_cobs_blocks_no_zero(packet@);
            lemma_cobs_round_trip(packet@);
            law_single_framed_packet_is_one_frame(enc);
            let frame = seq![0u8] + enc + seq![0u8];
            let d = cobs_in_place_decoding(enc);
            assert(cobs_packets(frame, cobs_scan(frame, frame.len()).2) == seq![d.0.take(packet@.len() as int)]);
        }
        assert(encoded_buf@ =~= orig.take(idx0 as int) + seq![0u8] + enc + seq![0u8] + orig.skip(
            idx0 + enc.len() + 2,
        )) by {
            assert forall|k: int| 0 <= k < encoded_buf@.len() implies encoded_buf@[k] == (orig.take(
                idx0 as int,
            ) + seq![0u8] + enc + seq![0u8] + orig.skip(idx0 + enc.len() + 2))[k] by {
                if k < idx0 {
                    assert(mid[k] == orig[k]);
                    assert(mid2[k] == mid[k]);
                } else if k == idx0 {
                    assert(mid2[k] == mid[k]);
                } else if k < idx0 + 1 + enc.len() {
                    assert(mid2[k] == enc[k - idx0 - 1]);
                } else if k == idx0 + 1 + enc.len() {
                } else {
                    assert(mid2[k] == mid[k]);
                    assert(mid[k] == orig[k]);
                }
            }
        }
    }
    true
}


/// State of the scan of [parse_buffer_for_cobs_encoded_packets] over the first `i` bytes of
/// `b`: the start index of the current frame, whether a frame start was found, and the frames
/// `(start, end)` which were closed by a sentinel at index `end`.
///
/// A sentinel opens a frame unless it is followed by another sentinel (and is not the last byte).
/// The next sentinel closes the frame.
pub open spec fn cobs_scan(b: Seq<u8>, i: nat) -> (int, bool, Seq<(int, int)>)
    decreases i,
{
    if i == 0 {
        (0, false, Seq::empty())
    } else {
        let prev = cobs_scan(b, (i - 1) as nat);
        let k = i - 1;
        if b[k] != 0 {
            prev
        } else if !prev.1 && k != b.len() - 1 && b[k + 1] == 0 {
            prev
        } else if prev.1 {
            (prev.0, false, prev.2.push((prev.0, k)))
        } else {
            (k + 1, true, prev.2)
        }
    }
}

/// The buffer after the frames were decoded in place, one after the other.
pub open spec fn cobs_apply_decodings(b: Seq<u8>, frames: Seq<(int, int)>) -> Seq<u8>
    decreases frames.len(),
{
    if frames.len() == 0 {
        b
    } else {
        let prev = cobs_apply_decodings(b, frames.drop_last());
        let f = frames.last();
        let dec = cobs_in_place_decoding(b.subrange(f.0, f.1)).0;
        Seq::new(b.len(), |k: int| if f.0 <= k < f.1 { dec[k - f.0] } else { prev[k] })
    }
}

/// The number of frames which were decoded successfully.
pub open spec fn cobs_ok_count(b: Seq<u8>, frames: Seq<(int, int)>) -> nat
    decreases frames.len(),
{
    if frames.len() == 0 {
        0
    } else {
        let f = frames.last();
        cobs_ok_count(b, frames.drop_last()) + if cobs_in_place_decoding(
            b.subrange(f.0, f.1),
        ).1 is Some {
            1nat
        } else {
            0nat
        }
    }
}

/// The packets which were decoded successfully from the frames, in order.
pub open spec fn cobs_packets(b: Seq<u8>, frames: Seq<(int, int)>) -> Seq<Seq<u8>>
    decreases frames.len(),
{
    if frames.len() == 0 {
        Seq::empty()
    } else {
        let f = frames.last();
        let d = cobs_in_place_decoding(b.subrange(f.0, f.1));
        let prev = cobs_packets(b, frames.drop_last());
        match d.1 {
            Some(n) => prev.push(d.0.take(n as int)),
            None => prev,
        }
    }
}

/// Whether parsing the buffer moves a broken tail frame to the start of the buffer: a frame was
/// started and not closed, and at least one frame before it decoded.
pub open spec fn cobs_tail_moved(b: Seq<u8>) -> bool {
    let scan = cobs_scan(b, b.len());
    scan.0 > 0 && scan.1 && cobs_ok_count(b, scan.2) > 0
}

/// The buffer after parsing: every frame decoded in place, and a broken tail frame, if one was
/// moved, at the start.
pub open spec fn cobs_parsed_buffer(b: Seq<u8>) -> Seq<u8> {
    let scan = cobs_scan(b, b.len());
    let decoded = cobs_apply_decodings(b, scan.2);
    if cobs_tail_moved(b) {
        b.skip(scan.0 - 1) + decoded.skip(b.len() - scan.0 + 1)
    } else {
        decoded
    }
}

/// The frames are ordered, do not overlap and lie before index `bound`.
pub open spec fn cobs_frames_wf(frames: Seq<(int, int)>, bound: int) -> bool {
    &&& forall|a: int| 0 <= a < frames.len() ==> 1 <= #[trigger] frames[a].0 <= frames[a].1 < bound
    &&& forall|a: int, c: int| 0 <= a < c < frames.len() ==> #[trigger] frames[a].1 < #[trigger] frames[c].0
}

proof fn lemma_ok_count_is_packet_count(b: Seq<u8>, frames: Seq<(int, int)>)
    ensures
        cobs_ok_count(b, frames) == cobs_packets(b, frames).len(),
    decreases frames.len(),
{
    if frames.len() > 0 {
        lemma_ok_count_is_packet_count(b, frames.drop_last());
    }
}

/// The packets decoded from the frames found so far are a prefix of those found further on.
proof fn lemma_packets_prefix(b: Seq<u8>, i: nat, n: nat)
    requires
        i <= n,
    ensures
        cobs_packets(b, cobs_scan(b, i).2).len() <= cobs_packets(b, cobs_scan(b, n).2).len(),
        cobs_packets(b, cobs_scan(b, n).2).take(cobs_packets(b, cobs_scan(b, i).2).len() as int) == cobs_packets(b, cobs_scan(b, i).2),
    decreases n,
{
    let pi = cobs_packets(b, cobs_scan(b, i).2);
    if i < n {
        lemma_packets_prefix(b, i, (n - 1) as nat);
        let prev = cobs_scan(b, (n - 1) as nat);
        let cur = cobs_scan(b, n);
        let pp = cobs_packets(b, prev.2);
        if cur.2 != prev.2 {
            assert(cur.2.drop_last() == prev.2);
            let pc = cobs_packets(b, cur.2);
            if pc != pp {
                assert(pc.drop_last() =~= pp);
                assert(pc.take(pi.len() as int) =~= pp.take(pi.len() as int));
            }
        }
    } else {
        assert(pi.take(pi.len() as int) =~= pi);
    }
}

proof fn lemma_apply_outside(b: Seq<u8>, frames: Seq<(int, int)>, k: int)
    requires
        0 <= k < b.len(),
        forall|a: int| 0 <= a < frames.len() ==> !(#[trigger] frames[a].0 <= k < frames[a].1),
    ensures
        cobs_apply_decodings(b, frames)[k] == b[k],
        cobs_apply_decodings(b, frames).len() == b.len(),
    decreases frames.len(),
{
    if frames.len() > 0 {
        let prefix = frames.drop_last();
        assert forall|a: int| 0 <= a < prefix.len() implies !(#[trigger] prefix[a].0 <= k < prefix[a].1) by {
            assert(prefix[a] == frames[a]);
        }
        lemma_apply_outside(b, prefix, k);
        assert(frames.last() == frames[frames.len() - 1]);
    }
}

proof fn lemma_apply_len(b: Seq<u8>, frames: Seq<(int, int)>)
    ensures
        cobs_apply_decodings(b, frames).len() == b.len(),
    decreases frames.len(),
{
    if frames.len() > 0 {
        lemma_apply_len(b, frames.drop_last());
    }
}

/// This function parses a given buffer for COBS encoded packets. The packet structure is
/// expected to be like this, assuming a sentinel value of 0 as the packet delimiter:
///
/// 0 | ... Encoded Packet Data ... | 0 | 0 | ... Encoded Packet Data ... | 0
///
/// This function is also able to deal with broken tail packets at the end. If broken tail
/// packets are detected, they are moved to the front of the buffer, and the write index for
/// future write operations will be written to the `next_write_idx` argument.
///
/// The parser passes all packets which were decoded successfully to the given `tc_receiver`,
/// and returns their number.
pub fn parse_buffer_for_cobs_encoded_packets<R: ReceivesTcCore>(
    buf: &mut [u8],
    tc_receiver: &mut R,
    next_write_idx: &mut usize,
) -> (r: Result<u32, R::Error>)
    requires
        old(buf)@.len() / 2 <= u32::MAX,
    ensures
        final(buf)@.len() == old(buf)@.len(),
        r matches Ok(n) ==> n <= old(buf)@.len() / 2,
        cobs_ok_count(old(buf)@, cobs_scan(old(buf)@, old(buf)@.len()).2) == 0 ==> r is Ok,
        r is Ok ==> final(tc_receiver).spec_received().deep_view() == old(tc_receiver).spec_received().deep_view()
            + cobs_packets(old(buf)@, cobs_scan(old(buf)@, old(buf)@.len()).2),
        old(tc_receiver).spec_accepts_all() ==> r is Ok,
        r is Err ==> ({
            let pk = cobs_packets(old(buf)@, cobs_scan(old(buf)@, old(buf)@.len()).2);
            exists|k: int| 0 <= k < pk.len() && final(tc_receiver).spec_received().deep_view() == old(tc_receiver).spec_received().deep_view() + #[trigger] pk.take(k)
        }),
        r is Ok ==> {
            let b = old(buf)@;
            let len = b.len() as int;
            let scan = cobs_scan(b, b.len());
            let decoded = cobs_apply_decodings(b, scan.2);
            let count = cobs_ok_count(b, scan.2);
            &&& r->Ok_0 == count
            &&& r->Ok_0 == cobs_packets(b, scan.2).len()
            &&& if scan.0 > 0 && scan.1 && count > 0 {
                &&& final(buf)@ == b.skip(scan.0 - 1) + decoded.skip(len - scan.0 + 1)
                &&& *final(next_write_idx) == len - scan.0 + 1
            } else {
                &&& final(buf)@ == decoded
                &&& *final(next_write_idx) == *old(next_write_idx)
            }
        },
{
    let ghost b = buf@;
    let len = buf.len();
    let mut start_index_packet: usize = 0;
    let mut start_found = false;
    let mut last_byte = false;
    let mut packets_found: u32 = 0;
    let ghost mut frames: Seq<(int, int)> = Seq::empty();
    let mut i: usize = 0;
    while i < len
        invariant
            len == b.len(),
            b == old(buf)@,
            buf@.len() == b.len(),
            b.len() / 2 <= u32::MAX,
            i <= len,
            cobs_scan(b, i as nat) == (start_index_packet as int, start_found, frames),
            buf@ == cobs_apply_decodings(b, frames),
            packets_found == cobs_ok_count(b, frames),
            packets_found <= frames.len(),
            2 * frames.len() + (if start_found { 1int } else { 0int }) <= i,
            cobs_frames_wf(frames, i as int),
            start_found ==> 1 <= start_index_packet <= i && forall|a: int|
                0 <= a < frames.len() ==> #[trigger] frames[a].1 < start_index_packet - 1,
            last_byte ==> i == len,
            tc_receiver.spec_received().deep_view() == old(tc_receiver).spec_received().deep_view() + cobs_packets(b, frames),
            old(tc_receiver).spec_accepts_all() ==> tc_receiver.spec_accepts_all(),
        decreases len - i,
    {
        proof {
            lemma_apply_len(b, frames);
        }
        if i == len - 1 {
            last_byte = true;
        }
        let ghost prev_frames = frames;
        let ghost prev_start = start_index_packet as int;
        let ghost prev_found = start_found;
        proof {
            assert forall|a: int| 0 <= a < frames.len() implies !(#[trigger] frames[a].0 <= i < frames[a].1) by {}
            lemma_apply_outside(b, frames, i as int);
            if i + 1 < len {
                assert forall|a: int| 0 <= a < frames.len() implies !(#[trigger] frames[a].0 <= i + 1 < frames[a].1) by {}
                lemma_apply_outside(b, frames, i + 1);
            }
            assert(cobs_scan(b, (i + 1) as nat) == {
                let prev = cobs_scan(b, i as nat);
                let k = i as int;
                if b[k] != 0 {
                    prev
                } else if !prev.1 && k != b.len() - 1 && b[k + 1] == 0 {
                    prev
                } else if prev.1 {
                    (prev.0, false, prev.2.push((prev.0, k)))
                } else {
                    (k + 1, true, prev.2)
                }
            });
        }
        if buf[i] == 0 {
            if !start_found && !last_byte && buf[i + 1] == 0 {
                // Special case: Consecutive sentinel values or all zeroes.
                // Skip.
                i += 1;
                continue;
            }
            if start_found {
                proof {
                    assert(buf@.subrange(start_index_packet as int, i as int) =~= b.subrange(
                        start_index_packet as int,
                        i as int,
                    )) by {
                        assert forall|k: int| start_index_packet <= k < i implies buf@[k] == b[k] by {
                            assert forall|a: int| 0 <= a < frames.len() implies !(#[trigger] frames[a].0 <= k < frames[a].1) by {}
                            lemma_apply_outside(b, frames, k);
                        }
                    }
                }
                let ghost before_dec = buf@;
                let decode_result = cobs_decode_in_place_range(buf, start_index_packet, i);
                proof {
                    frames = frames.push((start_index_packet as int, i as int));
                    assert(frames.drop_last() == prev_frames);
                    assert(buf@ =~= cobs_apply_decodings(b, frames));
                    lemma_apply_len(b, frames);
                }
                if let Ok(packet_len) = decode_result {
                    packets_found += 1;
                    let ghost received_before = tc_receiver.spec_received().deep_view();
                    let packet = &buf[start_index_packet..start_index_packet + packet_len];
                    proof {
                        let d = cobs_in_place_decoding(b.subrange(start_index_packet as int, i as int));
                        assert(d.0.len() == i - start_index_packet) by {
                            assert(before_dec.len() == b.len());
                        }
                        assert(packet@ =~= d.0.take(packet_len as int));
                        assert(cobs_packets(b, frames) == cobs_packets(b, prev_frames).push(packet@));
                    }
                    let passed = tc_receiver.pass_tc(packet);
                    proof {
                        if passed is Ok {
                            assert(tc_receiver.spec_received().deep_view() =~= old(tc_receiver).spec_received().deep_view() + cobs_packets(b, frames));
                        }
                    }
                    if let Err(e) = passed {
                        proof {
                            assert(cobs_scan(b, (i + 1) as nat).2 == frames);
                            lemma_packets_prefix(b, (i + 1) as nat, b.len());
                            let pk = cobs_packets(b, cobs_scan(b, b.len()).2);
                            let k = cobs_packets(b, prev_frames).len() as int;
                            assert(pk.take(k) =~= pk.take(k + 1).take(k));
                            assert(pk.take(k + 1) == cobs_packets(b, frames));
                            assert(cobs_packets(b, frames).take(k) =~= cobs_packets(b, prev_frames));
                            assert(tc_receiver.spec_received().deep_view() == old(tc_receiver).spec_received().deep_view() + pk.take(k));
                            lemma_ok_count_is_packet_count(b, cobs_scan(b, b.len()).2);
                        }
                        return Err(e);
                    }
                }
                start_found = false;
            } else {
                start_index_packet = i + 1;
                start_found = true;
            }
        }
        i += 1;
    }
    proof {
        lemma_apply_len(b, frames);
        lemma_ok_count_is_packet_count(b, frames);
    }
    // Move split frame at the end to the front of the buffer.
    if start_index_packet > 0 && start_found && packets_found > 0 {
        let ghost decoded = buf@;
        proof {
            assert forall|m: int| start_index_packet - 1 <= m < len implies #[trigger] decoded[m] == b[m] by {
                assert forall|a: int| 0 <= a < frames.len() implies !(#[trigger] frames[a].0 <= m < frames[a].1) by {}
                lemma_apply_outside(b, frames, m);
            }
        }
        let tail_len = len - start_index_packet + 1;
        let mut k: usize = 0;
        while k < tail_len
            invariant
                len == b.len(),
                1 <= start_index_packet <= len,
                tail_len == len - start_index_packet + 1,
                k <= tail_len,
                buf@.len() == len,
                decoded.len() == len,
                forall|m: int| start_index_packet - 1 <= m < len ==> #[trigger] decoded[m] == b[m],
                forall|m: int|
                    0 <= m < len ==> #[trigger] buf@[m] == if m < k {
                        decoded[start_index_packet - 1 + m]
                    } else {
                        decoded[m]
                    },
            decreases tail_len - k,
        {
            let v = buf[start_index_packet - 1 + k];
            buf[k] = v;
            k += 1;
        }
        *next_write_idx = len - start_index_packet + 1;
        proof {
            assert(buf@ =~= b.skip(start_index_packet - 1) + decoded.skip(
                len - start_index_packet + 1,
            ));
        }
    }
    Ok(packets_found)
}

proof fn lemma_scan_inside_single_frame(enc: Seq<u8>, i: nat)
    requires
        enc.len() > 0,
        forall|k: int| 0 <= k < enc.len() ==> #[trigger] enc[k] != 0,
        1 <= i <= enc.len() + 1,
    ensures
        cobs_scan(seq![0u8] + enc + seq![0u8], i) == (1int, true, Seq::<(int, int)>::empty()),
    decreases i,
{
    let b = seq![0u8] + enc + seq![0u8];
    if i == 1 {
        assert(b[0] == 0);
        assert(b[1] == enc[0]);
        assert(cobs_scan(b, 0) == (0int, false, Seq::<(int, int)>::empty()));
    } else {
        lemma_scan_inside_single_frame(enc, (i - 1) as nat);
        assert(b[i - 1] == enc[i - 2]);
    }
}

/// A buffer that holds one encoded packet, wrapped in the sentinel value on both sides, is
/// parsed as a single frame spanning the encoded packet; the parser passes on the result of
/// decoding that frame, if the decoding succeeds, and nothing else.
pub proof fn law_single_framed_packet_is_one_frame(enc: Seq<u8>)
    requires
        enc.len() > 0,
        forall|k: int| 0 <= k < enc.len() ==> #[trigger] enc[k] != 0,
    ensures
        ({
            let b = seq![0u8] + enc + seq![0u8];
            let scan = cobs_scan(b, b.len());
            let d = cobs_in_place_decoding(enc);
            &&& scan.2 == seq![(1int, enc.len() + 1int)]
            &&& !scan.1
            &&& cobs_ok_count(b, scan.2) == (if d.1 is Some { 1nat } else { 0nat })
            &&& cobs_packets(b, scan.2) == match d.1 {
                Some(n) => seq![d.0.take(n as int)],
                None => Seq::<Seq<u8>>::empty(),
            }
        }),
{
    let b = seq![0u8] + enc + seq![0u8];
    lemma_scan_inside_single_frame(enc, (enc.len() + 1) as nat);
    assert(b[enc.len() + 1int] == 0);
    let frames = seq![(1int, enc.len() + 1int)];
    assert(cobs_scan(b, b.len()) == (1int, false, frames)) by {
        assert(Seq::<(int, int)>::empty().push((1int, enc.len() + 1int)) =~= frames);
    }
    assert(b.subrange(1, enc.len() + 1int) =~= enc);
    assert(frames.drop_last() =~= Seq::<(int, int)>::empty());
    assert(frames.last() == (1int, enc.len() + 1int));
    let d = cobs_in_place_decoding(enc);
    assert(cobs_ok_count(b, Seq::<(int, int)>::empty()) == 0);
    assert(cobs_packets(b, Seq::<(int, int)>::empty()) == Seq::<Seq<u8>>::empty());
    assert(cobs_ok_count(b, frames) == (if d.1 is Some { 1nat } else { 0nat }));
    match d.1 {
        Some(n) => {
            assert(cobs_packets(b, frames) =~= Seq::<Seq<u8>>::empty().push(d.0.take(n as int)));
            assert(Seq::<Seq<u8>>::empty().push(d.0.take(n as int)) =~= seq![d.0.take(n as int)]);
        },
        None => {
            assert(cobs_packets(b, frames) =~= Seq::<Seq<u8>>::empty());
        },
    }
}

} // verus!
