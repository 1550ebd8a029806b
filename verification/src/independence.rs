//! Transfers under different keys do not disturb each other: what the
//! engine holds under one key depends only on the packets of that key.

use vstd::prelude::*;
use crate::frame::{ReassemblyBufferView, RxFrameView, RxPacketView, RxProps};
use crate::reassembly::{first_match, run, run_from, step, RxState, Step};
use crate::transfer::{no_buffer, transfer_round_trip, transfer_train};

verus! {

/// Whether a buffer in progress stands under the key `(xid, port_id)`.
pub open spec fn buffer_has_key(b: ReassemblyBufferView, xid: u32, port_id: u16) -> bool {
    b.xid == xid && b.props.port_id == port_id
}

/// Whether a completed frame came under the key `(xid, port_id)`.
pub open spec fn frame_has_key(f: RxFrameView, xid: u32, port_id: u16) -> bool {
    f.xid == xid && f.props.port_id == port_id
}

/// Whether a packet belongs to the key `(xid, port_id)`.
pub open spec fn packet_has_key(p: RxPacketView, xid: u32, port_id: u16) -> bool {
    p.xid == xid && p.props.port_id == port_id
}

/// The buffers under one key, in order.
pub open spec fn buffers_of(bufs: Seq<ReassemblyBufferView>, xid: u32, port_id: u16) -> Seq<ReassemblyBufferView>
    decreases bufs.len(),
{
    if bufs.len() == 0 {
        Seq::empty()
    } else if buffer_has_key(bufs.last(), xid, port_id) {
        buffers_of(bufs.drop_last(), xid, port_id).push(bufs.last())
    } else {
        buffers_of(bufs.drop_last(), xid, port_id)
    }
}

/// The completed frames under one key, in order.
pub open spec fn frames_of(frames: Seq<RxFrameView>, xid: u32, port_id: u16) -> Seq<RxFrameView>
    decreases frames.len(),
{
    if frames.len() == 0 {
        Seq::empty()
    } else if frame_has_key(frames.last(), xid, port_id) {
        frames_of(frames.drop_last(), xid, port_id).push(frames.last())
    } else {
        frames_of(frames.drop_last(), xid, port_id)
    }
}

/// What the engine holds under one key.
pub open spec fn projected(s: RxState, xid: u32, port_id: u16) -> RxState {
    RxState {
        complete: frames_of(s.complete, xid, port_id),
        incomplete: buffers_of(s.incomplete, xid, port_id),
    }
}

/// The packets of one key from index `i` on, in order.
pub open spec fn packets_of(packets: Seq<RxPacketView>, xid: u32, port_id: u16, i: int) -> Seq<RxPacketView>
    decreases packets.len() - i,
{
    if i < 0 || i >= packets.len() {
        Seq::empty()
    } else if packet_has_key(packets[i], xid, port_id) {
        seq![packets[i]] + packets_of(packets, xid, port_id, i + 1)
    } else {
        packets_of(packets, xid, port_id, i + 1)
    }
}

proof fn lemma_none_of_key(bufs: Seq<ReassemblyBufferView>, xid: u32, port_id: u16)
    requires
        forall|m: int| 0 <= m < bufs.len() ==> !buffer_has_key(#[trigger] bufs[m], xid, port_id),
    ensures
        buffers_of(bufs, xid, port_id).len() == 0,
    decreases bufs.len(),
{
    if bufs.len() > 0 {
        lemma_none_of_key(bufs.drop_last(), xid, port_id);
    }
}

proof fn lemma_first_match_is_first(bufs: Seq<ReassemblyBufferView>, xid: u32, port_id: u16, i: int)
    requires
        0 <= i <= bufs.len(),
    ensures
        i <= first_match(bufs, xid, port_id, i) <= bufs.len(),
        forall|m: int|
            i <= m < first_match(bufs, xid, port_id, i) ==> !buffer_has_key(
                #[trigger] bufs[m],
                xid,
                port_id,
            ),
        first_match(bufs, xid, port_id, i) < bufs.len() ==> buffer_has_key(
            bufs[first_match(bufs, xid, port_id, i)],
            xid,
            port_id,
        ),
    decreases bufs.len() - i,
{
    if i < bufs.len() && !(bufs[i].xid == xid && bufs[i].props.port_id == port_id) {
        lemma_first_match_is_first(bufs, xid, port_id, i + 1);
    }
}

proof fn lemma_remove_other(bufs: Seq<ReassemblyBufferView>, xid: u32, port_id: u16, j: int)
    requires
        0 <= j < bufs.len(),
        !buffer_has_key(bufs[j], xid, port_id),
    ensures
        buffers_of(bufs.remove(j), xid, port_id) == buffers_of(bufs, xid, port_id),
    decreases bufs.len(),
{
    if j == bufs.len() - 1 {
        assert(bufs.remove(j) =~= bufs.drop_last());
    } else {
        assert(bufs.remove(j).drop_last() =~= bufs.drop_last().remove(j));
        assert(bufs.remove(j).last() == bufs.last());
        lemma_remove_other(bufs.drop_last(), xid, port_id, j);
    }
}

proof fn lemma_update_other(
    bufs: Seq<ReassemblyBufferView>,
    xid: u32,
    port_id: u16,
    j: int,
    x: ReassemblyBufferView,
)
    requires
        0 <= j < bufs.len(),
        !buffer_has_key(bufs[j], xid, port_id),
        !buffer_has_key(x, xid, port_id),
    ensures
        buffers_of(bufs.update(j, x), xid, port_id) == buffers_of(bufs, xid, port_id),
    decreases bufs.len(),
{
    if j == bufs.len() - 1 {
        assert(bufs.update(j, x).drop_last() =~= bufs.drop_last());
    } else {
        assert(bufs.update(j, x).drop_last() =~= bufs.drop_last().update(j, x));
        assert(bufs.update(j, x).last() == bufs.last());
        lemma_update_other(bufs.drop_last(), xid, port_id, j, x);
    }
}

proof fn lemma_first_of_key(
    bufs: Seq<ReassemblyBufferView>,
    xid: u32,
    port_id: u16,
    j: int,
    x: ReassemblyBufferView,
)
    requires
        0 <= j < bufs.len(),
        buffer_has_key(bufs[j], xid, port_id),
        buffer_has_key(x, xid, port_id),
        forall|m: int| 0 <= m < j ==> !buffer_has_key(#[trigger] bufs[m], xid, port_id),
    ensures
        buffers_of(bufs, xid, port_id).len() >= 1,
        buffers_of(bufs, xid, port_id)[0] == bufs[j],
        buffers_of(bufs.remove(j), xid, port_id) == buffers_of(bufs, xid, port_id).remove(0),
        buffers_of(bufs.update(j, x), xid, port_id) == buffers_of(bufs, xid, port_id).update(0, x),
    decreases bufs.len(),
{
    let all = buffers_of(bufs, xid, port_id);
    if j == bufs.len() - 1 {
        assert forall|m: int| 0 <= m < bufs.drop_last().len() implies !buffer_has_key(
            #[trigger] bufs.drop_last()[m],
            xid,
            port_id,
        ) by {
            assert(bufs.drop_last()[m] == bufs[m]);
        }
        lemma_none_of_key(bufs.drop_last(), xid, port_id);
        assert(bufs.remove(j) =~= bufs.drop_last());
        assert(bufs.update(j, x).drop_last() =~= bufs.drop_last());
        assert(all =~= seq![bufs[j]]);
        assert(buffers_of(bufs.remove(j), xid, port_id) =~= all.remove(0));
        assert(buffers_of(bufs.update(j, x), xid, port_id) =~= all.update(0, x));
    } else {
        let front = bufs.drop_last();
        assert forall|m: int| 0 <= m < j implies !buffer_has_key(
            #[trigger] front[m],
            xid,
            port_id,
        ) by {
            assert(front[m] == bufs[m]);
        }
        lemma_first_of_key(front, xid, port_id, j, x);
        assert(bufs.remove(j).drop_last() =~= front.remove(j));
        assert(bufs.remove(j).last() == bufs.last());
        assert(bufs.update(j, x).drop_last() =~= front.update(j, x));
        assert(bufs.update(j, x).last() == bufs.last());
        assert(buffers_of(bufs.remove(j), xid, port_id) =~= all.remove(0));
        assert(buffers_of(bufs.update(j, x), xid, port_id) =~= all.update(0, x));
    }
}

proof fn lemma_pushed_buffer(
    bufs: Seq<ReassemblyBufferView>,
    xid: u32,
    port_id: u16,
    x: ReassemblyBufferView,
)
    ensures
        buffers_of(bufs.push(x), xid, port_id) == if buffer_has_key(x, xid, port_id) {
            buffers_of(bufs, xid, port_id).push(x)
        } else {
            buffers_of(bufs, xid, port_id)
        },
{
    assert(bufs.push(x).drop_last() =~= bufs);
}

proof fn lemma_pushed_frame(frames: Seq<RxFrameView>, xid: u32, port_id: u16, x: RxFrameView)
    ensures
        frames_of(frames.push(x), xid, port_id) == if frame_has_key(x, xid, port_id) {
            frames_of(frames, xid, port_id).push(x)
        } else {
            frames_of(frames, xid, port_id)
        },
{
    assert(frames.push(x).drop_last() =~= frames);
}

/// The first buffer of a key in the whole table is the first in the
/// projection onto that key.
proof fn lemma_projected_match(bufs: Seq<ReassemblyBufferView>, xid: u32, port_id: u16)
    ensures
        first_match(bufs, xid, port_id, 0) < bufs.len() <==> first_match(
            buffers_of(bufs, xid, port_id),
            xid,
            port_id,
            0,
        ) < buffers_of(bufs, xid, port_id).len(),
        first_match(bufs, xid, port_id, 0) < bufs.len() ==> first_match(
            buffers_of(bufs, xid, port_id),
            xid,
            port_id,
            0,
        ) == 0 && buffers_of(bufs, xid, port_id)[0] == bufs[first_match(bufs, xid, port_id, 0)],
{
    let j = first_match(bufs, xid, port_id, 0);
    lemma_first_match_is_first(bufs, xid, port_id, 0);
    if j < bufs.len() {
        lemma_first_of_key(bufs, xid, port_id, j, bufs[j]);
    } else {
        lemma_none_of_key(bufs, xid, port_id);
    }
}

/// A packet does to the projection onto its own key what it does to the
/// whole state.
pub proof fn step_commutes_with_projection(s: RxState, p: RxPacketView)
    ensures
        step(projected(s, p.xid, p.props.port_id), p) == (Step {
            state: projected(step(s, p).state, p.xid, p.props.port_id),
            crc_failed: step(s, p).crc_failed,
        }),
{
    let xid = p.xid;
    let port_id = p.props.port_id;
    let j = first_match(s.incomplete, xid, port_id, 0);
    let mine = projected(s, xid, port_id);
    let after = step(s, p);
    lemma_first_match_is_first(s.incomplete, xid, port_id, 0);
    lemma_projected_match(s.incomplete, xid, port_id);
    if j < s.incomplete.len() {
        let held = s.incomplete[j];
        lemma_first_of_key(s.incomplete, xid, port_id, j, crate::reassembly::extended(held, p));
        lemma_pushed_buffer(s.incomplete.remove(j), xid, port_id, crate::reassembly::opened(p));
        lemma_pushed_frame(
            s.complete,
            xid,
            port_id,
            crate::reassembly::completed(held, held.payload + p.data),
        );
    } else {
        lemma_pushed_buffer(s.incomplete, xid, port_id, crate::reassembly::opened(p));
    }
    lemma_pushed_frame(
        s.complete,
        xid,
        port_id,
        RxFrameView { xid: p.xid, payload: p.data, props: p.props },
    );
    assert(step(mine, p).state.complete =~= projected(after.state, xid, port_id).complete);
    assert(step(mine, p).state.incomplete =~= projected(after.state, xid, port_id).incomplete);
}

/// A packet leaves untouched what the engine holds under any other key.
pub proof fn step_keeps_other_keys(s: RxState, p: RxPacketView, xid: u32, port_id: u16)
    requires
        !packet_has_key(p, xid, port_id),
    ensures
        projected(step(s, p).state, xid, port_id) == projected(s, xid, port_id),
{
    let j = first_match(s.incomplete, p.xid, p.props.port_id, 0);
    lemma_first_match_is_first(s.incomplete, p.xid, p.props.port_id, 0);
    if j < s.incomplete.len() {
        let held = s.incomplete[j];
        lemma_remove_other(s.incomplete, xid, port_id, j);
        lemma_update_other(s.incomplete, xid, port_id, j, crate::reassembly::extended(held, p));
        lemma_pushed_buffer(s.incomplete.remove(j), xid, port_id, crate::reassembly::opened(p));
        lemma_pushed_frame(
            s.complete,
            xid,
            port_id,
            crate::reassembly::completed(held, held.payload + p.data),
        );
    } else {
        lemma_pushed_buffer(s.incomplete, xid, port_id, crate::reassembly::opened(p));
    }
    lemma_pushed_frame(
        s.complete,
        xid,
        port_id,
        RxFrameView { xid: p.xid, payload: p.data, props: p.props },
    );
    assert(projected(step(s, p).state, xid, port_id).complete =~= projected(
        s,
        xid,
        port_id,
    ).complete);
    assert(projected(step(s, p).state, xid, port_id).incomplete =~= projected(
        s,
        xid,
        port_id,
    ).incomplete);
}

/// At most one transfer is in progress under each key.
pub open spec fn one_buffer_per_key(s: RxState) -> bool {
    forall|xid: u32, port_id: u16| #[trigger] buffers_of(s.incomplete, xid, port_id).len() <= 1
}

/// The engine never holds two transfers in progress under one key: a
/// packet leaves at most one where there was at most one.
pub proof fn step_keeps_one_buffer_per_key(s: RxState, p: RxPacketView)
    requires
        one_buffer_per_key(s),
    ensures
        one_buffer_per_key(step(s, p).state),
{
    assert forall|xid: u32, port_id: u16| #[trigger]
        buffers_of(step(s, p).state.incomplete, xid, port_id).len() <= 1 by {
        assert(buffers_of(s.incomplete, xid, port_id).len() <= 1);
        if packet_has_key(p, xid, port_id) {
            step_commutes_with_projection(s, p);
            lemma_projected_match(s.incomplete, xid, port_id);
            lemma_first_match_is_first(s.incomplete, xid, port_id, 0);
            if first_match(s.incomplete, xid, port_id, 0) >= s.incomplete.len() {
                lemma_none_of_key(s.incomplete, xid, port_id);
            }
        } else {
            step_keeps_other_keys(s, p, xid, port_id);
        }
    }
}

/// A run of packets leaves at most one transfer in progress under each key
/// where there was at most one.
pub proof fn run_keeps_one_buffer_per_key(s: RxState, packets: Seq<RxPacketView>, i: int)
    requires
        one_buffer_per_key(s),
        0 <= i,
    ensures
        one_buffer_per_key(run_from(s, packets, i).state),
    decreases packets.len() - i,
{
    if i < packets.len() {
        step_keeps_one_buffer_per_key(s, packets[i]);
        if !step(s, packets[i]).crc_failed {
            run_keeps_one_buffer_per_key(step(s, packets[i]).state, packets, i + 1);
        }
    }
}

proof fn lemma_run_shift(s: RxState, p: RxPacketView, rest: Seq<RxPacketView>, i: int)
    requires
        0 <= i,
    ensures
        run_from(s, seq![p] + rest, i + 1) == run_from(s, rest, i),
    decreases rest.len() - i,
{
    let whole = seq![p] + rest;
    if i < rest.len() {
        assert(whole[i + 1] == rest[i]);
        lemma_run_shift(step(s, rest[i]).state, p, rest, i + 1);
    }
}

/// As long as no checksum fails, what a run of packets leaves under one
/// key is what the packets of that key alone make of what stood under it.
pub proof fn run_commutes_with_projection(
    s: RxState,
    packets: Seq<RxPacketView>,
    xid: u32,
    port_id: u16,
    i: int,
)
    requires
        0 <= i,
        !run_from(s, packets, i).crc_failed,
    ensures
        run(projected(s, xid, port_id), packets_of(packets, xid, port_id, i)) == (Step {
            state: projected(run_from(s, packets, i).state, xid, port_id),
            crc_failed: false,
        }),
    decreases packets.len() - i,
{
    if i < packets.len() {
        let p = packets[i];
        let one = step(s, p);
        if packet_has_key(p, xid, port_id) {
            step_commutes_with_projection(s, p);
            let rest = packets_of(packets, xid, port_id, i + 1);
            lemma_run_shift(projected(one.state, xid, port_id), p, rest, 0);
            run_commutes_with_projection(one.state, packets, xid, port_id, i + 1);
            assert((seq![p] + rest)[0] == p);
        } else {
            step_keeps_other_keys(s, p, xid, port_id);
            run_commutes_with_projection(one.state, packets, xid, port_id, i + 1);
        }
    }
}

/// A run of packets of two keys fails a checksum only where the packets of
/// one of the keys, taken alone, fail one.
pub proof fn failure_belongs_to_a_key(
    s: RxState,
    packets: Seq<RxPacketView>,
    xa: u32,
    pa: u16,
    xb: u32,
    pb: u16,
    i: int,
)
    requires
        0 <= i,
        forall|m: int|
            0 <= m < packets.len() ==> packet_has_key(#[trigger] packets[m], xa, pa)
                || packet_has_key(packets[m], xb, pb),
        run_from(s, packets, i).crc_failed,
    ensures
        run(projected(s, xa, pa), packets_of(packets, xa, pa, i)).crc_failed || run(
            projected(s, xb, pb),
            packets_of(packets, xb, pb, i),
        ).crc_failed,
    decreases packets.len() - i,
{
    if i < packets.len() {
        let p = packets[i];
        let one = step(s, p);
        step_commutes_with_projection(s, p);
        if packet_has_key(p, xa, pa) {
            let rest = packets_of(packets, xa, pa, i + 1);
            assert((seq![p] + rest)[0] == p);
            lemma_run_shift(projected(one.state, xa, pa), p, rest, 0);
        } else {
            step_keeps_other_keys(s, p, xa, pa);
        }
        if packet_has_key(p, xb, pb) {
            let rest = packets_of(packets, xb, pb, i + 1);
            assert((seq![p] + rest)[0] == p);
            lemma_run_shift(projected(one.state, xb, pb), p, rest, 0);
        } else {
            step_keeps_other_keys(s, p, xb, pb);
        }
        if !one.crc_failed {
            failure_belongs_to_a_key(one.state, packets, xa, pa, xb, pb, i + 1);
        }
    }
}

proof fn lemma_projection_has_no_buffer(s: RxState, xid: u32, port_id: u16)
    requires
        no_buffer(s, xid, port_id),
    ensures
        no_buffer(projected(s, xid, port_id), xid, port_id),
        projected(s, xid, port_id).incomplete.len() == 0,
{
    lemma_projected_match(s.incomplete, xid, port_id);
    lemma_first_match_is_first(s.incomplete, xid, port_id, 0);
    lemma_none_of_key(s.incomplete, xid, port_id);
}

/// Two transfers under different keys, their frames interleaved in any way,
/// both reassemble: no checksum fails, and under each key the complete FIFO
/// gains exactly the payload of that key's transfer and no buffer is left.
pub proof fn interleaved_transfers_reassemble(
    s: RxState,
    mix: Seq<RxPacketView>,
    xa: u32,
    pa: RxProps,
    payload_a: Seq<u8>,
    xb: u32,
    pb: RxProps,
    payload_b: Seq<u8>,
)
    requires
        xa != xb || pa.port_id != pb.port_id,
        no_buffer(s, xa, pa.port_id),
        no_buffer(s, xb, pb.port_id),
        forall|m: int|
            0 <= m < mix.len() ==> packet_has_key(#[trigger] mix[m], xa, pa.port_id)
                || packet_has_key(mix[m], xb, pb.port_id),
        packets_of(mix, xa, pa.port_id, 0) == transfer_train(xa, pa, payload_a),
        packets_of(mix, xb, pb.port_id, 0) == transfer_train(xb, pb, payload_b),
    ensures
        !run(s, mix).crc_failed,
        frames_of(run(s, mix).state.complete, xa, pa.port_id) == frames_of(
            s.complete,
            xa,
            pa.port_id,
        ).push(RxFrameView { xid: xa, payload: payload_a, props: pa }),
        frames_of(run(s, mix).state.complete, xb, pb.port_id) == frames_of(
            s.complete,
            xb,
            pb.port_id,
        ).push(RxFrameView { xid: xb, payload: payload_b, props: pb }),
        buffers_of(run(s, mix).state.incomplete, xa, pa.port_id).len() == 0,
        buffers_of(run(s, mix).state.incomplete, xb, pb.port_id).len() == 0,
{
    lemma_projection_has_no_buffer(s, xa, pa.port_id);
    lemma_projection_has_no_buffer(s, xb, pb.port_id);
    transfer_round_trip(projected(s, xa, pa.port_id), xa, pa, payload_a);
    transfer_round_trip(projected(s, xb, pb.port_id), xb, pb, payload_b);
    if run(s, mix).crc_failed {
        failure_belongs_to_a_key(s, mix, xa, pa.port_id, xb, pb.port_id, 0);
    }
    run_commutes_with_projection(s, mix, xa, pa.port_id, 0);
    run_commutes_with_projection(s, mix, xb, pb.port_id, 0);
}

} // verus!
