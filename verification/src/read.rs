//! The receive demultiplexer: filtered drains of the complete FIFO.

use vstd::prelude::*;
use crate::frame::{RxData, RxFrame, RxFrameView, frames_view};
use crate::interface::CANInterface;

verus! {

/// Port of general status and of the result of a set request.
pub const PORT_RESULT: u16 = 0x87;

/// Port on which nodes report errors.
pub const PORT_ERROR: u16 = 0x17C0;

/// The three ports on which key/value data arrive.
pub const PORT_KEY_VALUE_A: u16 = 128;

pub const PORT_KEY_VALUE_B: u16 = 129;

pub const PORT_KEY_VALUE_STREAM: u16 = 1160;

/// General status when no status frame is waiting.
pub const STATUS_NONE: u8 = 0xFF;

/// The items whose mark is set, in order.
pub open spec fn picked<T>(items: Seq<T>, marks: Seq<bool>) -> Seq<T>
    decreases items.len(),
{
    if items.len() == 0 || marks.len() != items.len() {
        Seq::empty()
    } else if marks.last() {
        picked(items.drop_last(), marks.drop_last()).push(items.last())
    } else {
        picked(items.drop_last(), marks.drop_last())
    }
}

/// The opposite of each mark.
pub open spec fn inverted(marks: Seq<bool>) -> Seq<bool> {
    Seq::new(marks.len(), |i: int| !marks[i])
}

/// Whether a frame passes an optional filter on its source node.
pub open spec fn source_passes(frame: RxFrameView, source_node_id: Option<u8>) -> bool {
    match source_node_id {
        Some(id) => frame.props.source_node_id == id,
        None => true,
    }
}

/// Whether a port carries key/value data.
pub open spec fn is_key_value_port(port_id: u16) -> bool {
    port_id == PORT_KEY_VALUE_A || port_id == PORT_KEY_VALUE_B || port_id == PORT_KEY_VALUE_STREAM
}

/// The marks of a drain by one port and an optional source node.
pub open spec fn port_marks(frames: Seq<RxFrameView>, port_id: u16, source_node_id: Option<u8>) -> Seq<bool> {
    Seq::new(
        frames.len(),
        |i: int| frames[i].props.port_id == port_id && source_passes(frames[i], source_node_id),
    )
}

/// Whether an optional wanted key accepts the key decoded from a payload;
/// a payload that did not decode is never accepted.
pub open spec fn key_passes(decoded: Option<String>, key: Option<Seq<char>>) -> bool {
    match decoded {
        Some(found) => match key {
            Some(wanted) => found@ == wanted,
            None => true,
        },
        None => false,
    }
}

/// The marks of a key/value drain: a key/value port, a payload that decoded
/// to an accepted key, and an accepted source node. A frame for which no
/// decoded key is given counts as one that did not decode.
pub open spec fn key_value_marks(
    frames: Seq<RxFrameView>,
    decoded_keys: Seq<Option<String>>,
    key: Option<Seq<char>>,
    source_node_id: Option<u8>,
) -> Seq<bool> {
    Seq::new(
        frames.len(),
        |i: int|
            is_key_value_port(frames[i].props.port_id) && i < decoded_keys.len() && key_passes(
                decoded_keys[i],
                key,
            ) && source_passes(frames[i], source_node_id),
    )
}

/// The status byte of a frame: its first payload byte; a frame without
/// payload reads as zero, as its zero-filled frame buffer does.
pub open spec fn status_byte(frame: RxFrameView) -> u8 {
    if frame.payload.len() > 0 {
        frame.payload[0]
    } else {
        0
    }
}

/// The status bytes of a sequence of frames, each with its frame's
/// properties.
pub open spec fn status_data(frames: Seq<RxFrameView>) -> Seq<RxData<u8>> {
    Seq::new(frames.len(), |i: int| RxData { data: status_byte(frames[i]), props: frames[i].props })
}

/// The status byte of the last frame, or `STATUS_NONE` where there is none.
pub open spec fn last_status(frames: Seq<RxFrameView>) -> u8 {
    if frames.len() == 0 {
        STATUS_NONE
    } else {
        status_byte(frames.last())
    }
}

/// The wanted key as a value of the model.
pub open spec fn key_view(key: Option<&str>) -> Option<Seq<char>> {
    match key {
        Some(k) => Some(k@),
        None => None,
    }
}

fn read_status(frame: &RxFrame) -> (b: u8)
    ensures
        b == status_byte(frame@),
{
    if frame.payload.len() > 0 {
        frame.payload[0]
    } else {
        0
    }
}

fn check_source(frame: &RxFrame, source_node_id: Option<u8>) -> (ok: bool)
    ensures
        ok == source_passes(frame@, source_node_id),
{
    match source_node_id {
        Some(id) => frame.props.source_node_id == id,
        None => true,
    }
}

fn check_key(decoded: &Option<String>, key: &Option<String>) -> (ok: bool)
    ensures
        ok == key_passes(
            *decoded,
            match *key {
                Some(k) => Some(k@),
                None => None,
            },
        ),
{
    match decoded {
        Some(found) => match key {
            Some(wanted) => *found == *wanted,
            None => true,
        },
        None => false,
    }
}

impl CANInterface {
    /// Empties the complete FIFO.
    pub fn clear_rx_complete_fifo(&mut self)
        ensures
            final(self).rx_complete_fifo@.len() == 0,
            final(self).rx_incomplete_fifo == old(self).rx_incomplete_fifo,
            final(self).same_settings(*old(self)),
            old(self).wf() ==> final(self).wf(),
    {
        self.rx_complete_fifo.clear();
        proof {
            assert(self.rx_state().incomplete == old(self).rx_state().incomplete);
        }
    }

    /// Empties the table of transfers in progress.
    pub fn clear_rx_incomplete_fifo(&mut self)
        ensures
            final(self).rx_incomplete_fifo@.len() == 0,
            final(self).rx_complete_fifo == old(self).rx_complete_fifo,
            final(self).same_settings(*old(self)),
            old(self).transfer_id < 32 ==> final(self).wf(),
    {
        self.rx_incomplete_fifo.clear();
        proof {
            self.lemma_empty_table_is_wf();
        }
    }

    /// Removes the marked frames from the complete FIFO and returns them in
    /// order; the others stay, in order.
    pub fn drain_marked(&mut self, marks: &Vec<bool>) -> (out: Vec<RxFrame>)
        requires
            marks@.len() == old(self).rx_complete_fifo@.len(),
        ensures
            frames_view(out@) == picked(old(self).rx_state().complete, marks@),
            final(self).rx_state().complete == picked(
                old(self).rx_state().complete,
                inverted(marks@),
            ),
            final(self).rx_state().incomplete == old(self).rx_state().incomplete,
            final(self).same_settings(*old(self)),
            old(self).wf() ==> final(self).wf(),
    {
        let ghost all = self.rx_state().complete;
        let mut out: Vec<RxFrame> = Vec::new();
        let n: usize = marks.len();
        let mut i: usize = 0;
        let mut k: usize = 0;
        proof {
            assert(frames_view(out@) =~= picked(all.take(0), marks@.take(0)));
            assert(all.skip(0) =~= all);
            assert(frames_view(self.rx_complete_fifo@) =~= picked(
                all.take(0),
                inverted(marks@).take(0),
            ) + all.skip(0));
        }
        while k < n
            invariant
                i <= k <= n,
                n == marks@.len(),
                n == all.len(),
                all == old(self).rx_state().complete,
                self.rx_complete_fifo@.len() == i + (n - k),
                frames_view(out@) == picked(all.take(k as int), marks@.take(k as int)),
                frames_view(self.rx_complete_fifo@) =~= picked(
                    all.take(k as int),
                    inverted(marks@).take(k as int),
                ) + all.skip(k as int),
                i == picked(all.take(k as int), inverted(marks@).take(k as int)).len(),
                self.rx_state().incomplete == old(self).rx_state().incomplete,
                self.same_settings(*old(self)),
            decreases n - k,
        {
            let ghost kept = picked(all.take(k as int), inverted(marks@).take(k as int));
            proof {
                assert(all.take(k + 1).drop_last() =~= all.take(k as int));
                assert(marks@.take(k + 1).drop_last() =~= marks@.take(k as int));
                assert(inverted(marks@).take(k + 1).drop_last() =~= inverted(marks@).take(
                    k as int,
                ));
                assert(all.take(k + 1).last() == all[k as int]);
                assert(frames_view(self.rx_complete_fifo@)[i as int] == all.skip(k as int)[0]);
            }
            let ghost before = frames_view(self.rx_complete_fifo@);
            if marks[k] {
                let frame = self.rx_complete_fifo.remove(i);
                out.push(frame);
                proof {
                    assert(frames_view(out@) =~= picked(all.take(k + 1), marks@.take(k + 1)));
                    assert(before =~= kept + all.skip(k as int));
                    assert(frames_view(self.rx_complete_fifo@) =~= before.remove(i as int));
                    assert(before.remove(i as int) =~= kept + all.skip(k + 1));
                }
            } else {
                i = i + 1;
                proof {
                    assert(frames_view(self.rx_complete_fifo@) =~= kept.push(all[k as int])
                        + all.skip(k + 1));
                }
            }
            k = k + 1;
        }
        proof {
            assert(all.take(n as int) =~= all);
            assert(marks@.take(n as int) =~= marks@);
            assert(inverted(marks@).take(n as int) =~= inverted(marks@));
            assert(all.skip(n as int) =~= Seq::<RxFrameView>::empty());
            assert(frames_view(self.rx_complete_fifo@) =~= picked(all, inverted(marks@)));
        }
        out
    }

    /// The marks of a drain by one port and an optional source node.
    fn mark_port(&self, port_id: u16, source_node_id: Option<u8>) -> (marks: Vec<bool>)
        ensures
            marks@ == port_marks(self.rx_state().complete, port_id, source_node_id),
    {
        let mut marks: Vec<bool> = Vec::new();
        let n: usize = self.rx_complete_fifo.len();
        let mut i: usize = 0;
        while i < n
            invariant
                i <= n,
                n == self.rx_complete_fifo@.len(),
                marks@ == port_marks(self.rx_state().complete, port_id, source_node_id).take(
                    i as int,
                ),
            decreases n - i,
        {
            let frame = &self.rx_complete_fifo[i];
            let hit = frame.props.port_id == port_id && check_source(frame, source_node_id);
            marks.push(hit);
            i = i + 1;
            proof {
                assert(marks@ =~= port_marks(
                    self.rx_state().complete,
                    port_id,
                    source_node_id,
                ).take(i as int));
            }
        }
        proof {
            assert(marks@ =~= port_marks(self.rx_state().complete, port_id, source_node_id));
        }
        marks
    }

    /// Removes the frames of one port, from one source node if one is given,
    /// and returns their status bytes in order, or `None` where there were
    /// none. The other frames stay, in order.
    pub fn drain_status(&mut self, port_id: u16, source_node_id: Option<u8>) -> (r: Option<Vec<RxData<u8>>>)
        ensures
            r.is_none() <==> picked(
                old(self).rx_state().complete,
                port_marks(old(self).rx_state().complete, port_id, source_node_id),
            ).len() == 0,
            r matches Some(v) ==> v@ == status_data(
                picked(
                    old(self).rx_state().complete,
                    port_marks(old(self).rx_state().complete, port_id, source_node_id),
                ),
            ),
            final(self).rx_state().complete == picked(
                old(self).rx_state().complete,
                inverted(port_marks(old(self).rx_state().complete, port_id, source_node_id)),
            ),
            final(self).rx_state().incomplete == old(self).rx_state().incomplete,
            final(self).same_settings(*old(self)),
            old(self).wf() ==> final(self).wf(),
    {
        let marks = self.mark_port(port_id, source_node_id);
        let frames = self.drain_marked(&marks);
        let n: usize = frames.len();
        if n == 0 {
            return None;
        }
        let mut buffer: Vec<RxData<u8>> = Vec::new();
        let mut i: usize = 0;
        while i < n
            invariant
                i <= n,
                n == frames@.len(),
                buffer@ == status_data(frames_view(frames@)).take(i as int),
            decreases n - i,
        {
            buffer.push(RxData { data: read_status(&frames[i]), props: frames[i].props });
            i = i + 1;
            proof {
                assert(buffer@ =~= status_data(frames_view(frames@)).take(i as int));
            }
        }
        proof {
            assert(buffer@ =~= status_data(frames_view(frames@)));
        }
        Some(buffer)
    }

    /// Drains the results of set requests: port 0x87.
    pub fn get_result(&mut self, source_node_id: Option<u8>) -> (r: Option<Vec<RxData<u8>>>)
        ensures
            r.is_none() <==> picked(
                old(self).rx_state().complete,
                port_marks(old(self).rx_state().complete, PORT_RESULT, source_node_id),
            ).len() == 0,
            r matches Some(v) ==> v@ == status_data(
                picked(
                    old(self).rx_state().complete,
                    port_marks(old(self).rx_state().complete, PORT_RESULT, source_node_id),
                ),
            ),
            final(self).rx_state().complete == picked(
                old(self).rx_state().complete,
                inverted(port_marks(old(self).rx_state().complete, PORT_RESULT, source_node_id)),
            ),
            final(self).rx_state().incomplete == old(self).rx_state().incomplete,
            final(self).same_settings(*old(self)),
            old(self).wf() ==> final(self).wf(),
    {
        self.drain_status(PORT_RESULT, source_node_id)
    }

    /// Drains the error reports: port 0x17C0.
    pub fn get_error(&mut self, source_node_id: Option<u8>) -> (r: Option<Vec<RxData<u8>>>)
        ensures
            r.is_none() <==> picked(
                old(self).rx_state().complete,
                port_marks(old(self).rx_state().complete, PORT_ERROR, source_node_id),
            ).len() == 0,
            r matches Some(v) ==> v@ == status_data(
                picked(
                    old(self).rx_state().complete,
                    port_marks(old(self).rx_state().complete, PORT_ERROR, source_node_id),
                ),
            ),
            final(self).rx_state().complete == picked(
                old(self).rx_state().complete,
                inverted(port_marks(old(self).rx_state().complete, PORT_ERROR, source_node_id)),
            ),
            final(self).rx_state().incomplete == old(self).rx_state().incomplete,
            final(self).same_settings(*old(self)),
            old(self).wf() ==> final(self).wf(),
    {
        self.drain_status(PORT_ERROR, source_node_id)
    }

    /// Removes every frame of port 0x87 and returns the status byte of the
    /// last of them, or 0xFF where there was none.
    pub fn get_digitalservo_general_status(&mut self) -> (status: u8)
        ensures
            status == last_status(
                picked(
                    old(self).rx_state().complete,
                    port_marks(old(self).rx_state().complete, PORT_RESULT, None),
                ),
            ),
            final(self).rx_state().complete == picked(
                old(self).rx_state().complete,
                inverted(port_marks(old(self).rx_state().complete, PORT_RESULT, None)),
            ),
            final(self).rx_state().incomplete == old(self).rx_state().incomplete,
            final(self).same_settings(*old(self)),
            old(self).wf() ==> final(self).wf(),
    {
        let marks = self.mark_port(PORT_RESULT, None);
        let frames = self.drain_marked(&marks);
        let n: usize = frames.len();
        if n == 0 {
            STATUS_NONE
        } else {
            proof {
                assert(frames_view(frames@).last() == frames@[n - 1]@);
            }
            read_status(&frames[n - 1])
        }
    }

    /// Drains the key/value frames. `decoded_keys` holds, for each frame of
    /// the complete FIFO in order, the key of the dictionary that its
    /// payload decodes to, or `None` where it does not decode. A frame is
    /// taken when it came on a key/value port, its payload decoded, its key
    /// is the wanted one (if one is given) and its source node is the wanted
    /// one (if one is given). Returns the frames taken, in order, or `None`
    /// where there were none; the other frames stay, in order.
    pub fn get_key_value(
        &mut self,
        key: Option<&str>,
        source_node_id: Option<u8>,
        decoded_keys: &Vec<Option<String>>,
    ) -> (r: Option<Vec<RxFrame>>)
        ensures
            r.is_none() <==> picked(
                old(self).rx_state().complete,
                key_value_marks(
                    old(self).rx_state().complete,
                    decoded_keys@,
                    key_view(key),
                    source_node_id,
                ),
            ).len() == 0,
            r matches Some(v) ==> frames_view(v@) == picked(
                old(self).rx_state().complete,
                key_value_marks(
                    old(self).rx_state().complete,
                    decoded_keys@,
                    key_view(key),
                    source_node_id,
                ),
            ),
            final(self).rx_state().complete == picked(
                old(self).rx_state().complete,
                inverted(
                    key_value_marks(
                        old(self).rx_state().complete,
                        decoded_keys@,
                        key_view(key),
                        source_node_id,
                    ),
                ),
            ),
            final(self).rx_state().incomplete == old(self).rx_state().incomplete,
            final(self).same_settings(*old(self)),
            old(self).wf() ==> final(self).wf(),
    {
        let wanted: Option<String> = match key {
            Some(k) => Some(k.to_owned()),
            None => None,
        };
        let ghost all = self.rx_state().complete;
        let ghost goal = key_value_marks(all, decoded_keys@, key_view(key), source_node_id);
        let mut marks: Vec<bool> = Vec::new();
        let n: usize = self.rx_complete_fifo.len();
        let mut i: usize = 0;
        while i < n
            invariant
                i <= n,
                n == self.rx_complete_fifo@.len(),
                all == self.rx_state().complete,
                goal == key_value_marks(all, decoded_keys@, key_view(key), source_node_id),
                key_view(key) == match wanted {
                    Some(k) => Some(k@),
                    None => None,
                },
                marks@ == goal.take(i as int),
            decreases n - i,
        {
            let frame = &self.rx_complete_fifo[i];
            let port_id: u16 = frame.props.port_id;
            let hit = (port_id == PORT_KEY_VALUE_A || port_id == PORT_KEY_VALUE_B || port_id
                == PORT_KEY_VALUE_STREAM) && i < decoded_keys.len() && check_key(
                &decoded_keys[i],
                &wanted,
            ) && check_source(
                frame,
                source_node_id,
            );
            marks.push(hit);
            i = i + 1;
            proof {
                assert(marks@ =~= goal.take(i as int));
            }
        }
        proof {
            assert(marks@ =~= goal);
        }
        let frames = self.drain_marked(&marks);
        if frames.len() == 0 {
            None
        } else {
            Some(frames)
        }
    }
}

} // verus!
