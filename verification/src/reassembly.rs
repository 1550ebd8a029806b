//! The reassembly engine: a state machine over received packets that
//! collects multi-frame transfers by key and checks their checksum.

use vstd::prelude::*;
use crate::crc::crc16;
use crate::codec::{decoded_packets, read_packets, record_dlc, records_have_data, transfer_crc};
use crate::frame::{LinkError, ReassemblyBuffer, ReassemblyBufferView, RxFrame, RxFrameView, RxPacket, RxPacketView, TransferType, buffers_view, frames_view, rx_packets_view};
use crate::independence::{one_buffer_per_key, run_keeps_one_buffer_per_key, step_keeps_one_buffer_per_key};
use crate::interface::CANInterface;

verus! {

/// The two receive FIFOs as mathematical sequences.
pub struct RxState {
    pub complete: Seq<RxFrameView>,
    pub incomplete: Seq<ReassemblyBufferView>,
}

/// Result of feeding one packet, or a run of packets, to the engine.
pub struct Step {
    pub state: RxState,
    pub crc_failed: bool,
}

/// High byte of a checksum, which travels first.
pub open spec fn crc_high(crc: u16) -> u8 {
    #[verifier::truncate] ((crc >> 8) as u8)
}

/// Low byte of a checksum, which travels last.
pub open spec fn crc_low(crc: u16) -> u8 {
    #[verifier::truncate] ((crc & 0xff) as u8)
}

/// Index of the first buffer at or after `i` whose key is `(xid, port_id)`,
/// or the number of buffers where there is none.
pub open spec fn first_match(bufs: Seq<ReassemblyBufferView>, xid: u32, port_id: u16, i: int) -> int
    decreases bufs.len() - i,
{
    if i < 0 || i >= bufs.len() {
        bufs.len() as int
    } else if bufs[i].xid == xid && bufs[i].props.port_id == port_id {
        i
    } else {
        first_match(bufs, xid, port_id, i + 1)
    }
}

/// The buffer that a start frame opens.
pub open spec fn opened(p: RxPacketView) -> ReassemblyBufferView {
    ReassemblyBufferView { xid: p.xid, payload: p.data, props: p.props, expected_toggle: !p.toggle }
}

/// A buffer after one more frame in sequence.
pub open spec fn extended(b: ReassemblyBufferView, p: RxPacketView) -> ReassemblyBufferView {
    ReassemblyBufferView {
        xid: b.xid,
        payload: b.payload + p.data,
        props: b.props,
        expected_toggle: !b.expected_toggle,
    }
}

/// Whether a byte stream ends in the checksum of what stands before it.
pub open spec fn crc_closes(stream: Seq<u8>) -> bool {
    &&& stream.len() >= 2
    &&& stream[stream.len() - 2] == crc_high(crc16(stream.take(stream.len() - 2)))
    &&& stream[stream.len() - 1] == crc_low(crc16(stream.take(stream.len() - 2)))
}

/// The completed frame of a buffer whose stream ended with a good checksum.
pub open spec fn completed(b: ReassemblyBufferView, stream: Seq<u8>) -> RxFrameView {
    RxFrameView { xid: b.xid, payload: stream.take(stream.len() - 2), props: b.props }
}

/// One transition of the engine.
///
/// A single frame goes to the complete FIFO. A start frame replaces any
/// buffer of its key. A later frame without a buffer is dropped; one with
/// the wrong toggle bit destroys the buffer; a middle frame in sequence is
/// appended; an end frame in sequence closes the stream, which is promoted
/// if its last two bytes are the checksum of the rest and destroyed with a
/// checksum failure if not.
pub open spec fn step(s: RxState, p: RxPacketView) -> Step {
    let j = first_match(s.incomplete, p.xid, p.props.port_id, 0);
    let found = j < s.incomplete.len();
    match p.frame_type {
        TransferType::SingleFrame => Step {
            state: RxState {
                complete: s.complete.push(RxFrameView { xid: p.xid, payload: p.data, props: p.props }),
                incomplete: s.incomplete,
            },
            crc_failed: false,
        },
        TransferType::MultiFrameStart => Step {
            state: RxState {
                complete: s.complete,
                incomplete: if found {
                    s.incomplete.remove(j).push(opened(p))
                } else {
                    s.incomplete.push(opened(p))
                },
            },
            crc_failed: false,
        },
        TransferType::MultiFrameInProcess => Step {
            state: RxState {
                complete: s.complete,
                incomplete: if !found {
                    s.incomplete
                } else if s.incomplete[j].expected_toggle != p.toggle {
                    s.incomplete.remove(j)
                } else {
                    s.incomplete.update(j, extended(s.incomplete[j], p))
                },
            },
            crc_failed: false,
        },
        TransferType::MultiFrameEnd => if !found {
            Step { state: s, crc_failed: false }
        } else if s.incomplete[j].expected_toggle != p.toggle {
            Step {
                state: RxState { complete: s.complete, incomplete: s.incomplete.remove(j) },
                crc_failed: false,
            }
        } else if crc_closes(s.incomplete[j].payload + p.data) {
            Step {
                state: RxState {
                    complete: s.complete.push(
                        completed(s.incomplete[j], s.incomplete[j].payload + p.data),
                    ),
                    incomplete: s.incomplete.remove(j),
                },
                crc_failed: false,
            }
        } else {
            Step {
                state: RxState { complete: s.complete, incomplete: s.incomplete.remove(j) },
                crc_failed: true,
            }
        },
    }
}

/// The engine fed with the packets from index `i` on, in order, up to and
/// including the first one that fails its checksum.
pub open spec fn run_from(s: RxState, packets: Seq<RxPacketView>, i: int) -> Step
    decreases packets.len() - i,
{
    if i < 0 || i >= packets.len() {
        Step { state: s, crc_failed: false }
    } else {
        let one = step(s, packets[i]);
        if one.crc_failed {
            one
        } else {
            run_from(one.state, packets, i + 1)
        }
    }
}

/// The engine fed with a sequence of packets.
pub open spec fn run(s: RxState, packets: Seq<RxPacketView>) -> Step {
    run_from(s, packets, 0)
}

/// A device buffer that can be decoded: whole records, each with a tail.
pub open spec fn buffer_decodable(buffer: Seq<u8>) -> bool {
    buffer.len() % 72 == 0 && records_have_data(buffer)
}

/// A fresh vector of the first `n` bytes of `src`.
fn copy_prefix(src: &Vec<u8>, n: usize) -> (out: Vec<u8>)
    requires
        n <= src@.len(),
    ensures
        out@ == src@.take(n as int),
{
    let mut out: Vec<u8> = Vec::new();
    let mut i: usize = 0;
    while i < n
        invariant
            i <= n <= src@.len(),
            out@ == src@.take(i as int),
        decreases n - i,
    {
        out.push(src[i]);
        i = i + 1;
        proof {
            assert(out@ =~= src@.take(i as int));
        }
    }
    out
}

/// Whether every record of a buffer of whole records announces data.
fn check_records(buffer: &[u8]) -> (ok: bool)
    requires
        buffer@.len() % 72 == 0,
    ensures
        ok == records_have_data(buffer@),
{
    let n: usize = buffer.len();
    let mut k: usize = 0;
    let mut offset: usize = 0;
    while offset < n
        invariant
            n == buffer@.len(),
            n % 72 == 0,
            offset == k * 72,
            offset <= n,
            forall|m: int| 0 <= m < k ==> #[trigger] record_dlc(buffer@, m) != 0,
        decreases n - offset,
    {
        assert(offset + 72 <= n && k < n / 72) by (nonlinear_arith)
            requires
                offset == k * 72,
                offset < n,
                n % 72 == 0,
        ;
        let b: u8 = buffer[offset + 6];
        if b & 0x0f == 0 {
            assert(record_dlc(buffer@, k as int) == 0);
            return false;
        }
        k = k + 1;
        offset = offset + 72;
    }
    assert(k >= n / 72) by (nonlinear_arith)
        requires
            offset == k * 72,
            offset >= n,
    ;
    true
}

impl CANInterface {
    /// The receive FIFOs as a state of the engine.
    pub open spec fn rx_state(&self) -> RxState {
        RxState {
            complete: frames_view(self.rx_complete_fifo@),
            incomplete: buffers_view(self.rx_incomplete_fifo@),
        }
    }

    /// Whether two interfaces agree in all but the receive FIFOs.
    pub open spec fn same_settings(&self, other: CANInterface) -> bool {
        &&& self.transfer_id == other.transfer_id
        &&& self.timeout_ms == other.timeout_ms
        &&& self.retry_count == other.retry_count
        &&& self.max_transfer_size == other.max_transfer_size
    }

    /// Index of the first buffer in progress with the given key.
    fn find_buffer(&self, xid: u32, port_id: u16) -> (j: usize)
        ensures
            j == first_match(self.rx_state().incomplete, xid, port_id, 0),
            j <= self.rx_incomplete_fifo@.len(),
            j < self.rx_incomplete_fifo@.len() ==> self.rx_incomplete_fifo@[j as int].xid == xid,
    {
        let n: usize = self.rx_incomplete_fifo.len();
        let mut i: usize = 0;
        while i < n
            invariant
                i <= n,
                n == self.rx_incomplete_fifo@.len(),
                first_match(self.rx_state().incomplete, xid, port_id, 0) == first_match(
                    self.rx_state().incomplete,
                    xid,
                    port_id,
                    i as int,
                ),
            decreases n - i,
        {
            if self.rx_incomplete_fifo[i].xid == xid && self.rx_incomplete_fifo[i].props.port_id
                == port_id {
                return i;
            }
            i = i + 1;
        }
        i
    }

    /// Feeds one decoded packet to the reassembly engine. Returns `false`
    /// exactly when the packet ended a transfer whose checksum is wrong.
    pub fn accept_packet(&mut self, packet: &RxPacket) -> (crc_ok: bool)
        requires
            packet.wf(),
        ensures
            final(self).rx_state() == step(old(self).rx_state(), packet@).state,
            crc_ok == !step(old(self).rx_state(), packet@).crc_failed,
            final(self).same_settings(*old(self)),
            old(self).wf() ==> final(self).wf(),
    {
        let ghost entry = self.rx_state();
        let ghost want = step(entry, packet@);
        proof {
            if one_buffer_per_key(entry) {
                step_keeps_one_buffer_per_key(entry, packet@);
            }
        }
        let data = copy_prefix(&packet.payload, packet.payload_size);
        match packet.frame_type {
            TransferType::SingleFrame => {
                self.rx_complete_fifo.push(
                    RxFrame { xid: packet.xid, payload: data, props: packet.props },
                );
                proof {
                    assert(self.rx_state().complete =~= want.state.complete);
                    assert(self.rx_state().incomplete =~= want.state.incomplete);
                }
                true
            },
            TransferType::MultiFrameStart => {
                let j = self.find_buffer(packet.xid, packet.props.port_id);
                if j < self.rx_incomplete_fifo.len() {
                    let _ = self.rx_incomplete_fifo.remove(j);
                }
                self.rx_incomplete_fifo.push(
                    ReassemblyBuffer {
                        xid: packet.xid,
                        payload: data,
                        props: packet.props,
                        expected_toggle: !packet.toggle,
                    },
                );
                proof {
                    assert(self.rx_state().complete =~= want.state.complete);
                    assert(self.rx_state().incomplete =~= want.state.incomplete);
                }
                true
            },
            TransferType::MultiFrameInProcess => {
                let j = self.find_buffer(packet.xid, packet.props.port_id);
                if j < self.rx_incomplete_fifo.len() {
                    let buffer = self.rx_incomplete_fifo.remove(j);
                    proof {
                        assert(buffer@ == entry.incomplete[j as int]);
                        assert(buffers_view(self.rx_incomplete_fifo@) =~= entry.incomplete.remove(
                            j as int,
                        ));
                    }
                    if buffer.expected_toggle == packet.toggle {
                        let ReassemblyBuffer { xid, payload, props, expected_toggle } = buffer;
                        let mut stream = payload;
                        stream.extend_from_slice(data.as_slice());
                        self.rx_incomplete_fifo.insert(
                            j,
                            ReassemblyBuffer {
                                xid,
                                payload: stream,
                                props,
                                expected_toggle: !expected_toggle,
                            },
                        );
                        proof {
                            assert(self.rx_incomplete_fifo@[j as int]@.payload =~= entry.incomplete[j as int].payload
                                + packet@.data);
                            assert(self.rx_incomplete_fifo@[j as int]@ == extended(
                                entry.incomplete[j as int],
                                packet@,
                            ));
                            assert(buffers_view(self.rx_incomplete_fifo@) =~= entry.incomplete.update(
                                j as int,
                                extended(entry.incomplete[j as int], packet@),
                            ));
                        }
                    }
                }
                proof {
                    assert(self.rx_state().complete =~= want.state.complete);
                    assert(self.rx_state().incomplete =~= want.state.incomplete);
                }
                true
            },
            TransferType::MultiFrameEnd => {
                let j = self.find_buffer(packet.xid, packet.props.port_id);
                if j >= self.rx_incomplete_fifo.len() {
                    proof {
                        assert(self.rx_state().complete =~= want.state.complete);
                        assert(self.rx_state().incomplete =~= want.state.incomplete);
                    }
                    return true;
                }
                let buffer = self.rx_incomplete_fifo.remove(j);
                proof {
                    assert(buffer@ == entry.incomplete[j as int]);
                    assert(self.rx_state().incomplete =~= entry.incomplete.remove(j as int));
                }
                if buffer.expected_toggle != packet.toggle {
                    proof {
                        assert(self.rx_state().complete =~= want.state.complete);
                    }
                    return true;
                }
                let ReassemblyBuffer { xid, payload, props, expected_toggle: _ } = buffer;
                let mut stream = payload;
                stream.extend_from_slice(data.as_slice());
                let ghost whole = stream@;
                proof {
                    assert(whole =~= entry.incomplete[j as int].payload + packet@.data);
                }
                let n: usize = stream.len();
                if n < 2 {
                    proof {
                        assert(self.rx_state().complete =~= want.state.complete);
                    }
                    return false;
                }
                let high: u8 = stream[n - 2];
                let low: u8 = stream[n - 1];
                stream.truncate(n - 2);
                proof {
                    assert(stream@ =~= whole.take(whole.len() - 2));
                }
                let crc: u16 = transfer_crc(stream.as_slice());
                if high == #[verifier::truncate] ((crc >> 8) as u8) && low == #[verifier::truncate] ((crc & 0xff) as u8) {
                    self.rx_complete_fifo.push(RxFrame { xid, payload: stream, props });
                    proof {
                        assert(self.rx_state().complete =~= want.state.complete);
                    }
                    true
                } else {
                    proof {
                        assert(self.rx_state().complete =~= want.state.complete);
                    }
                    false
                }
            },
        }
    }

    /// Feeds decoded packets to the reassembly engine, in order. Stops with
    /// `CrcMismatch` at the first transfer that ends with a wrong checksum;
    /// the packets after it are not looked at.
    pub fn load_packets(&mut self, packets: &Vec<RxPacket>) -> (r: Result<(), LinkError>)
        requires
            forall|i: int| 0 <= i < packets@.len() ==> (#[trigger] packets@[i]).wf(),
        ensures
            final(self).rx_state() == run(old(self).rx_state(), rx_packets_view(packets@)).state,
            r == if run(old(self).rx_state(), rx_packets_view(packets@)).crc_failed {
                Err::<(), LinkError>(LinkError::CrcMismatch)
            } else {
                Ok::<(), LinkError>(())
            },
            final(self).same_settings(*old(self)),
            old(self).wf() ==> final(self).wf(),
    {
        let ghost entry = self.rx_state();
        let ghost views = rx_packets_view(packets@);
        proof {
            if one_buffer_per_key(entry) {
                run_keeps_one_buffer_per_key(entry, views, 0);
            }
        }
        let n: usize = packets.len();
        let mut i: usize = 0;
        while i < n
            invariant
                i <= n,
                n == packets@.len(),
                views == rx_packets_view(packets@),
                entry == old(self).rx_state(),
                one_buffer_per_key(entry) ==> one_buffer_per_key(run_from(entry, views, 0).state),
                forall|k: int| 0 <= k < packets@.len() ==> (#[trigger] packets@[k]).wf(),
                run_from(entry, views, 0) == run_from(self.rx_state(), views, i as int),
                self.same_settings(*old(self)),
            decreases n - i,
        {
            let ghost before = self.rx_state();
            assert(views[i as int] == packets@[i as int]@);
            let ok = self.accept_packet(&packets[i]);
            proof {
                let one = step(before, views[i as int]);
                assert(run_from(before, views, i as int) == if one.crc_failed {
                    one
                } else {
                    run_from(one.state, views, i as int + 1)
                });
            }
            if !ok {
                return Err(LinkError::CrcMismatch);
            }
            i = i + 1;
        }
        Ok(())
    }

    /// Decodes a device buffer and feeds its frames to the reassembly
    /// engine. A buffer that is not a whole number of records, or holds a
    /// record without data, is refused and changes nothing.
    pub fn load_frames_from_buffer(&mut self, buffer: &[u8]) -> (r: Result<(), LinkError>)
        ensures
            final(self).same_settings(*old(self)),
            old(self).wf() ==> final(self).wf(),
            !buffer_decodable(buffer@) ==> r == Err::<(), LinkError>(LinkError::MalformedBuffer)
                && final(self).rx_state() == old(self).rx_state(),
            buffer_decodable(buffer@) ==> final(self).rx_state() == run(
                old(self).rx_state(),
                decoded_packets(buffer@),
            ).state && r == if run(old(self).rx_state(), decoded_packets(buffer@)).crc_failed {
                Err::<(), LinkError>(LinkError::CrcMismatch)
            } else {
                Ok::<(), LinkError>(())
            },
    {
        if buffer.len() % 72 != 0 || !check_records(buffer) {
            return Err(LinkError::MalformedBuffer);
        }
        match read_packets(buffer) {
            Some(packets) => self.load_packets(&packets),
            None => Err(LinkError::MalformedBuffer),
        }
    }
}

} // verus!
