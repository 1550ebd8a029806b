//! Plain-value types for frames on the bus, and their mathematical views.

use vstd::prelude::*;

verus! {

/// Number of payload bytes in one CAN-FD frame.
pub const MTU_CAN_FD: usize = 64;

/// What a transfer is: a broadcast message, or one side of a service call.
#[derive(Clone, Copy, Debug, PartialEq, Eq, Structural)]
pub enum TransferKind {
    Message,
    Response,
    Request,
}

/// Position of a frame within its transfer, read from the start and end bits
/// of its tail byte.
#[derive(Clone, Copy, Debug, PartialEq, Eq, Structural)]
pub enum TransferType {
    SingleFrame,
    MultiFrameStart,
    MultiFrameInProcess,
    MultiFrameEnd,
}

impl TransferType {
    /// The position that a pair of start and end bits stands for.
    pub open spec fn of_bits(start: bool, end: bool) -> TransferType {
        if start && end {
            TransferType::SingleFrame
        } else if start {
            TransferType::MultiFrameStart
        } else if end {
            TransferType::MultiFrameEnd
        } else {
            TransferType::MultiFrameInProcess
        }
    }

    /// Classifies a frame by the start and end bits of its tail byte.
    pub fn classify(start: bool, end: bool) -> (t: TransferType)
        ensures
            t == Self::of_bits(start, end),
    {
        if start && end {
            TransferType::SingleFrame
        } else if start {
            TransferType::MultiFrameStart
        } else if end {
            TransferType::MultiFrameEnd
        } else {
            TransferType::MultiFrameInProcess
        }
    }
}

/// Header properties of a received frame, decoded from its identifier and
/// tail byte.
#[derive(Clone, Copy, Debug, PartialEq, Eq, Structural)]
pub struct RxProps {
    pub priority: u8,
    pub transfer_kind: TransferKind,
    pub transfer_id: u8,
    pub port_id: u16,
    pub source_node_id: u8,
    pub destination_node_id: u8,
}

/// One frame as decoded from the device FIFO: the frame buffer, the number
/// of bytes of it that are data, and what the tail byte said.
#[derive(Clone, Debug)]
pub struct RxPacket {
    pub xid: u32,
    pub payload: Vec<u8>,
    pub payload_size: usize,
    pub frame_type: TransferType,
    pub toggle: bool,
    pub props: RxProps,
}

/// Mathematical value of an [`RxPacket`]: `data` is the part of the frame
/// buffer that is data.
pub struct RxPacketView {
    pub xid: u32,
    pub data: Seq<u8>,
    pub frame_type: TransferType,
    pub toggle: bool,
    pub props: RxProps,
}

impl RxPacket {
    /// The data bytes lie within the frame buffer.
    pub open spec fn wf(&self) -> bool {
        self.payload_size <= self.payload@.len()
    }
}

impl View for RxPacket {
    type V = RxPacketView;

    open spec fn view(&self) -> RxPacketView {
        RxPacketView {
            xid: self.xid,
            data: self.payload@.take(self.payload_size as int),
            frame_type: self.frame_type,
            toggle: self.toggle,
            props: self.props,
        }
    }
}

/// A completed transfer: identifier, reassembled payload, header properties.
#[derive(Clone, Debug)]
pub struct RxFrame {
    pub xid: u32,
    pub payload: Vec<u8>,
    pub props: RxProps,
}

/// Mathematical value of an [`RxFrame`].
pub struct RxFrameView {
    pub xid: u32,
    pub payload: Seq<u8>,
    pub props: RxProps,
}

impl View for RxFrame {
    type V = RxFrameView;

    open spec fn view(&self) -> RxFrameView {
        RxFrameView { xid: self.xid, payload: self.payload@, props: self.props }
    }
}

impl RxFrame {
    /// Number of payload bytes.
    pub fn payload_size(&self) -> (n: usize)
        ensures
            n == self@.payload.len(),
    {
        self.payload.len()
    }
}

/// A multi-frame transfer in progress: what has been received so far, and
/// the toggle bit that its next frame must carry.
#[derive(Clone, Debug)]
pub struct ReassemblyBuffer {
    pub xid: u32,
    pub payload: Vec<u8>,
    pub props: RxProps,
    pub expected_toggle: bool,
}

/// Mathematical value of a [`ReassemblyBuffer`].
pub struct ReassemblyBufferView {
    pub xid: u32,
    pub payload: Seq<u8>,
    pub props: RxProps,
    pub expected_toggle: bool,
}

impl View for ReassemblyBuffer {
    type V = ReassemblyBufferView;

    open spec fn view(&self) -> ReassemblyBufferView {
        ReassemblyBufferView {
            xid: self.xid,
            payload: self.payload@,
            props: self.props,
            expected_toggle: self.expected_toggle,
        }
    }
}

/// One frame ready for transmission: identifier, frame buffer, and the
/// number of bytes of the buffer to put on the bus.
#[derive(Clone, Debug)]
pub struct TxPacket {
    pub xid: u32,
    pub payload: Vec<u8>,
    pub payload_size: usize,
}

/// Mathematical value of a [`TxPacket`]: `bytes` is what goes on the bus.
pub struct TxPacketView {
    pub xid: u32,
    pub bytes: Seq<u8>,
}

impl View for TxPacket {
    type V = TxPacketView;

    open spec fn view(&self) -> TxPacketView {
        TxPacketView { xid: self.xid, bytes: self.payload@.take(self.payload_size as int) }
    }
}

/// A value taken from a received frame, with the frame's header properties.
#[derive(Clone, Copy, Debug)]
pub struct RxData<T> {
    pub data: T,
    pub props: RxProps,
}

/// What can go wrong between the caller and a node.
#[derive(Clone, Copy, Debug, PartialEq, Eq, Structural)]
pub enum LinkError {
    /// The adapter refused a frame or failed while reading.
    TransportFailure,
    /// The payload is longer than the largest transfer that is supported.
    PayloadTooLarge,
    /// A port or node identifier lies outside its range.
    InvalidIdentifier,
    /// The device buffer is not a whole number of well-formed frame records.
    MalformedBuffer,
    /// A multi-frame transfer ended with a wrong checksum.
    CrcMismatch,
    /// Every attempt ended without a qualifying reply.
    Timeout,
}

/// The views of a sequence of received packets, in order.
pub open spec fn rx_packets_view(v: Seq<RxPacket>) -> Seq<RxPacketView> {
    Seq::new(v.len(), |i: int| v[i]@)
}

/// The views of a sequence of packets to transmit, in order.
pub open spec fn tx_packets_view(v: Seq<TxPacket>) -> Seq<TxPacketView> {
    Seq::new(v.len(), |i: int| v[i]@)
}

/// The views of a sequence of completed frames, in order.
pub open spec fn frames_view(v: Seq<RxFrame>) -> Seq<RxFrameView> {
    Seq::new(v.len(), |i: int| v[i]@)
}

/// The views of a sequence of reassembly buffers, in order.
pub open spec fn buffers_view(v: Seq<ReassemblyBuffer>) -> Seq<ReassemblyBufferView> {
    Seq::new(v.len(), |i: int| v[i]@)
}

} // verus!
