//! The wire format of a transfer as a sequence of received packets, and
//! what the reassembly engine makes of such a sequence.

use vstd::prelude::*;
use crate::crc::{crc16, crc_detects_one_byte};
use crate::frame::{ReassemblyBufferView, RxFrameView, RxPacketView, RxProps, TransferType};
use crate::reassembly::{crc_closes, crc_high, crc_low, first_match, run, run_from, step, RxState, Step};

verus! {

/// A payload followed by the two bytes of its checksum, high byte first.
pub open spec fn with_crc(payload: Seq<u8>) -> Seq<u8> {
    payload.push(crc_high(crc16(payload))).push(crc_low(crc16(payload)))
}

/// Number of frames that carry a stream of `len` bytes, 63 to a frame.
pub open spec fn frame_count(len: int) -> int {
    (len + 62) / 63
}

/// Frame `k` of a multi-frame train: its share of the stream, start on the
/// first frame, end on the last, and a toggle bit that starts set and
/// alternates.
pub open spec fn train_packet(xid: u32, props: RxProps, stream: Seq<u8>, k: int) -> RxPacketView {
    RxPacketView {
        xid,
        data: stream.subrange(
            63 * k,
            if 63 * k + 63 < stream.len() {
                63 * k + 63
            } else {
                stream.len() as int
            },
        ),
        frame_type: TransferType::of_bits(k == 0, k == frame_count(stream.len() as int) - 1),
        toggle: k % 2 == 0,
        props,
    }
}

/// The train of frames that carries a stream of more than 63 bytes.
pub open spec fn stream_train(xid: u32, props: RxProps, stream: Seq<u8>) -> Seq<RxPacketView> {
    Seq::new(
        frame_count(stream.len() as int) as nat,
        |k: int| train_packet(xid, props, stream, k),
    )
}

/// The single frame that carries a payload of at most 63 bytes.
pub open spec fn single_packet(xid: u32, props: RxProps, payload: Seq<u8>) -> RxPacketView {
    RxPacketView {
        xid,
        data: payload,
        frame_type: TransferType::SingleFrame,
        toggle: true,
        props,
    }
}

/// The packets of one transfer of `payload`: one frame where it fits beside
/// the tail byte, else the train of the payload followed by its checksum.
pub open spec fn transfer_train(xid: u32, props: RxProps, payload: Seq<u8>) -> Seq<RxPacketView> {
    if payload.len() <= 63 {
        seq![single_packet(xid, props, payload)]
    } else {
        stream_train(xid, props, with_crc(payload))
    }
}

/// No transfer is in progress under the key `(xid, port_id)`.
pub open spec fn no_buffer(s: RxState, xid: u32, port_id: u16) -> bool {
    first_match(s.incomplete, xid, port_id, 0) == s.incomplete.len()
}

/// The state in which the first `k` frames of a train leave the engine:
/// one more buffer, which holds the first `63 * k` bytes of the stream.
pub open spec fn midway(s: RxState, xid: u32, props: RxProps, stream: Seq<u8>, k: int) -> RxState {
    RxState {
        complete: s.complete,
        incomplete: s.incomplete.push(
            ReassemblyBufferView {
                xid,
                payload: stream.take(63 * k),
                props,
                expected_toggle: k % 2 == 0,
            },
        ),
    }
}

/// What a whole train of a stream leaves: the completed frame where the
/// stream ends in its checksum, a checksum failure and nothing else where
/// it does not.
pub open spec fn train_outcome(s: RxState, xid: u32, props: RxProps, stream: Seq<u8>) -> Step {
    if crc_closes(stream) {
        Step {
            state: RxState {
                complete: s.complete.push(
                    RxFrameView { xid, payload: stream.take(stream.len() - 2), props },
                ),
                incomplete: s.incomplete,
            },
            crc_failed: false,
        }
    } else {
        Step { state: s, crc_failed: true }
    }
}

proof fn lemma_first_match_pushed(
    bufs: Seq<ReassemblyBufferView>,
    b: ReassemblyBufferView,
    xid: u32,
    port_id: u16,
    i: int,
)
    requires
        0 <= i <= bufs.len(),
        first_match(bufs, xid, port_id, i) == bufs.len(),
        b.xid == xid,
        b.props.port_id == port_id,
    ensures
        first_match(bufs.push(b), xid, port_id, i) == bufs.len(),
    decreases bufs.len() - i,
{
    if i < bufs.len() {
        assert(bufs.push(b)[i] == bufs[i]);
        lemma_first_match_pushed(bufs, b, xid, port_id, i + 1);
    }
}

proof fn lemma_held_is_found(s: RxState, xid: u32, props: RxProps, stream: Seq<u8>, k: int)
    requires
        no_buffer(s, xid, props.port_id),
    ensures
        first_match(midway(s, xid, props, stream, k).incomplete, xid, props.port_id, 0)
            == s.incomplete.len(),
        midway(s, xid, props, stream, k).incomplete.remove(s.incomplete.len() as int)
            == s.incomplete,
{
    let st = midway(s, xid, props, stream, k);
    let j = s.incomplete.len() as int;
    lemma_first_match_pushed(s.incomplete, st.incomplete[j], xid, props.port_id, 0);
    assert(st.incomplete.remove(j) =~= s.incomplete);
}

proof fn lemma_start_step(s: RxState, xid: u32, props: RxProps, stream: Seq<u8>)
    requires
        stream.len() > 63,
        no_buffer(s, xid, props.port_id),
    ensures
        step(s, train_packet(xid, props, stream, 0)) == (Step {
            state: midway(s, xid, props, stream, 1),
            crc_failed: false,
        }),
{
    let p = train_packet(xid, props, stream, 0);
    assert(p.data =~= stream.take(63));
    assert(step(s, p).state.incomplete =~= midway(s, xid, props, stream, 1).incomplete);
}

proof fn lemma_middle_step(s: RxState, xid: u32, props: RxProps, stream: Seq<u8>, k: int)
    requires
        stream.len() > 63,
        no_buffer(s, xid, props.port_id),
        1 <= k < frame_count(stream.len() as int) - 1,
    ensures
        step(midway(s, xid, props, stream, k), train_packet(xid, props, stream, k)) == (Step {
            state: midway(s, xid, props, stream, k + 1),
            crc_failed: false,
        }),
{
    let st = midway(s, xid, props, stream, k);
    let p = train_packet(xid, props, stream, k);
    let j = s.incomplete.len() as int;
    let held = st.incomplete[j];
    lemma_held_is_found(s, xid, props, stream, k);
    assert(held.payload + p.data =~= stream.take(63 * (k + 1)));
    assert(st.incomplete.update(
        j,
        ReassemblyBufferView {
            xid,
            payload: held.payload + p.data,
            props,
            expected_toggle: !held.expected_toggle,
        },
    ) =~= midway(s, xid, props, stream, k + 1).incomplete);
}

proof fn lemma_end_step(s: RxState, xid: u32, props: RxProps, stream: Seq<u8>)
    requires
        stream.len() > 63,
        no_buffer(s, xid, props.port_id),
    ensures
        step(
            midway(s, xid, props, stream, frame_count(stream.len() as int) - 1),
            train_packet(xid, props, stream, frame_count(stream.len() as int) - 1),
        ) == train_outcome(s, xid, props, stream),
{
    let k = frame_count(stream.len() as int) - 1;
    let st = midway(s, xid, props, stream, k);
    let p = train_packet(xid, props, stream, k);
    let held = st.incomplete[s.incomplete.len() as int];
    lemma_held_is_found(s, xid, props, stream, k);
    assert(held.payload + p.data =~= stream);
}

/// The frames `k` to `d - 1` of a train, in sequence, carry the engine from
/// the state after `k` frames to the state after `d` frames.
proof fn lemma_climb(
    s: RxState,
    xid: u32,
    props: RxProps,
    stream: Seq<u8>,
    t: Seq<RxPacketView>,
    k: int,
    d: int,
)
    requires
        stream.len() > 63,
        no_buffer(s, xid, props.port_id),
        1 <= k <= d <= frame_count(stream.len() as int) - 1,
        d <= t.len(),
        forall|m: int| k <= m < d ==> t[m] == train_packet(xid, props, stream, m),
    ensures
        run_from(midway(s, xid, props, stream, k), t, k) == run_from(
            midway(s, xid, props, stream, d),
            t,
            d,
        ),
    decreases d - k,
{
    if k < d {
        lemma_middle_step(s, xid, props, stream, k);
        lemma_climb(s, xid, props, stream, t, k + 1, d);
    }
}

/// Frames that continue or end a transfer are dropped while no transfer is
/// in progress under their key.
proof fn lemma_ignored(s: RxState, t: Seq<RxPacketView>, xid: u32, port_id: u16, i: int)
    requires
        no_buffer(s, xid, port_id),
        0 <= i,
        forall|m: int|
            i <= m < t.len() ==> (#[trigger] t[m]).xid == xid && t[m].props.port_id == port_id && (
            t[m].frame_type == TransferType::MultiFrameInProcess || t[m].frame_type
                == TransferType::MultiFrameEnd),
    ensures
        run_from(s, t, i) == (Step { state: s, crc_failed: false }),
    decreases t.len() - i,
{
    if i < t.len() {
        assert(step(s, t[i]) == Step { state: s, crc_failed: false });
        lemma_ignored(s, t, xid, port_id, i + 1);
    }
}

/// A train of frames, received whole and in order while no transfer is in
/// progress under its key, completes exactly when its stream ends in the
/// checksum of what stands before: the payload then joins the complete
/// FIFO with the properties of the train. Where the checksum is wrong, the
/// engine reports one checksum failure, the complete FIFO gets no entry and
/// no buffer is left behind.
pub proof fn train_completes_iff_crc_closes(s: RxState, xid: u32, props: RxProps, stream: Seq<u8>)
    requires
        stream.len() > 63,
        no_buffer(s, xid, props.port_id),
    ensures
        run(s, stream_train(xid, props, stream)) == train_outcome(s, xid, props, stream),
{
    let n = frame_count(stream.len() as int);
    let train = stream_train(xid, props, stream);
    lemma_start_step(s, xid, props, stream);
    lemma_climb(s, xid, props, stream, train, 1, n - 1);
    lemma_end_step(s, xid, props, stream);
    let last = step(midway(s, xid, props, stream, n - 1), train[n - 1]);
    assert(run_from(last.state, train, n) == Step { state: last.state, crc_failed: false });
}

/// A train that loses any one of its frames never completes: the frames
/// that arrive, in order, while no transfer was in progress under their
/// key, add nothing to the complete FIFO and report no checksum failure.
pub proof fn dropped_frame_never_completes(
    s: RxState,
    xid: u32,
    props: RxProps,
    stream: Seq<u8>,
    dropped: int,
)
    requires
        stream.len() > 63,
        no_buffer(s, xid, props.port_id),
        0 <= dropped < frame_count(stream.len() as int),
    ensures
        !run(s, stream_train(xid, props, stream).remove(dropped)).crc_failed,
        run(s, stream_train(xid, props, stream).remove(dropped)).state.complete == s.complete,
{
    let n = frame_count(stream.len() as int);
    let train = stream_train(xid, props, stream);
    let t = train.remove(dropped);
    assert forall|m: int| 0 <= m < t.len() implies #[trigger] t[m] == train_packet(
        xid,
        props,
        stream,
        if m < dropped {
            m
        } else {
            m + 1
        },
    ) by {}
    if dropped == 0 {
        lemma_ignored(s, t, xid, props.port_id, 0);
    } else {
        lemma_start_step(s, xid, props, stream);
        assert(t[0] == train_packet(xid, props, stream, 0));
        lemma_climb(s, xid, props, stream, t, 1, dropped);
        if dropped < n - 1 {
            let st = midway(s, xid, props, stream, dropped);
            lemma_held_is_found(s, xid, props, stream, dropped);
            assert(t[dropped] == train_packet(xid, props, stream, dropped + 1));
            assert(step(st, t[dropped]) == Step { state: s, crc_failed: false });
            lemma_ignored(s, t, xid, props.port_id, dropped + 1);
        }
    }
}

/// High and low byte together determine a checksum.
proof fn lemma_crc_bytes_injective(c1: u16, c2: u16)
    requires
        crc_high(c1) == crc_high(c2),
        crc_low(c1) == crc_low(c2),
    ensures
        c1 == c2,
{
    assert(((c1 >> 8) as u8) == ((c2 >> 8) as u8) && ((c1 & 0xff) as u8) == ((c2 & 0xff) as u8)
        ==> c1 == c2) by (bit_vector);
}

/// A transfer of which one byte, of the payload or of the checksum, was
/// changed on the way is rejected: the engine reports one checksum failure,
/// the complete FIFO gets no entry and no buffer is left behind.
pub proof fn corrupted_transfer_is_rejected(
    s: RxState,
    xid: u32,
    props: RxProps,
    payload: Seq<u8>,
    i: int,
    wrong: u8,
)
    requires
        payload.len() > 63,
        no_buffer(s, xid, props.port_id),
        0 <= i < with_crc(payload).len(),
        with_crc(payload)[i] != wrong,
    ensures
        run(s, stream_train(xid, props, with_crc(payload).update(i, wrong))) == (Step {
            state: s,
            crc_failed: true,
        }),
{
    let stream = with_crc(payload).update(i, wrong);
    let body = stream.take(stream.len() - 2);
    if i < payload.len() {
        assert(body =~= payload.update(i, wrong));
        crc_detects_one_byte(crate::crc::CRC_INITIAL, body, payload, i);
        if crc_closes(stream) {
            lemma_crc_bytes_injective(crc16(body), crc16(payload));
        }
    } else {
        assert(body =~= payload);
    }
    assert(!crc_closes(stream));
    train_completes_iff_crc_closes(s, xid, props, stream);
}

/// A payload of at most 63 bytes travels in one frame, and that frame puts
/// exactly the payload into the complete FIFO.
pub proof fn single_frame_round_trip(s: RxState, xid: u32, props: RxProps, payload: Seq<u8>)
    requires
        payload.len() <= 63,
    ensures
        transfer_train(xid, props, payload).len() == 1,
        run(s, transfer_train(xid, props, payload)) == (Step {
            state: RxState {
                complete: s.complete.push(RxFrameView { xid, payload, props }),
                incomplete: s.incomplete,
            },
            crc_failed: false,
        }),
{
    let train = transfer_train(xid, props, payload);
    let one = step(s, train[0]);
    assert(run_from(one.state, train, 1) == Step { state: one.state, crc_failed: false });
}

/// Reassembling the frames of a transfer gives back its payload, whatever
/// its length: the complete FIFO gains one frame with that payload and with
/// the properties, transfer identifier included, that the frames bore; the
/// table of transfers in progress is as before.
pub proof fn transfer_round_trip(s: RxState, xid: u32, props: RxProps, payload: Seq<u8>)
    requires
        no_buffer(s, xid, props.port_id),
    ensures
        run(s, transfer_train(xid, props, payload)) == (Step {
            state: RxState {
                complete: s.complete.push(RxFrameView { xid, payload, props }),
                incomplete: s.incomplete,
            },
            crc_failed: false,
        }),
{
    if payload.len() <= 63 {
        single_frame_round_trip(s, xid, props, payload);
    } else {
        let stream = with_crc(payload);
        assert(stream.take(stream.len() - 2) =~= payload);
        train_completes_iff_crc_closes(s, xid, props, stream);
    }
}

} // verus!
