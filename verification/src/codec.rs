//! The Cyphal/CAN codec of `cands_transport` and the key encoding of
//! `cands_presentation`, as this library calls them. Nothing here is proved:
//! each contract states what the called code was read to do.

use vstd::prelude::*;
use crate::frame::{MTU_CAN_FD, RxPacket, RxPacketView, RxProps, TransferKind, TransferType, TxPacket, TxPacketView, rx_packets_view, tx_packets_view};
use cands_transport::cyphal::{CyphalMiddleware, crc_add};
use crate::crc::{crc16, CRC_INITIAL};
use cands_transport::cyphal::CyphalRxPacketType::{SignleFrame, MultiFrameStart, MultiFrameInProcess, MultiFrameEnd};
use cands_transport::cyphal::CyphalTransferKind::{Message, Response, Request};
use cands_presentation::cyphal::digitalservo::string::Str;

verus! {

/// Node identifier under which this host sends.
pub const NODE_ID: u8 = 127;

/// Largest subject identifier of a message.
pub const SUBJECT_ID_MAX: u16 = 8191;

/// Largest service identifier of a request or response.
pub const SERVICE_ID_MAX: u16 = 511;

/// Largest node identifier.
pub const NODE_ID_MAX: u8 = 127;

/// The packets that `try_read` decodes from a device buffer.
pub uninterp spec fn decoded_packets(buffer: Seq<u8>) -> Seq<RxPacketView>;

/// The frames that `create_message_data` makes of a message.
pub uninterp spec fn message_train(transfer_id: u8, subject_id: u16, payload: Seq<u8>) -> Seq<TxPacketView>;

/// The frames that `create_request_data` makes of a service request.
pub uninterp spec fn request_train(transfer_id: u8, channel: u8, service_id: u16, payload: Seq<u8>) -> Seq<TxPacketView>;

/// The frames that `create_response_data` makes of a service response.
pub uninterp spec fn response_train(transfer_id: u8, channel: u8, service_id: u16, payload: Seq<u8>) -> Seq<TxPacketView>;

/// The encoding of a key as a payload: the number of its bytes, modulo
/// 256, in one byte, then the bytes of its UTF-8 form.
pub open spec fn str_payload(key: Seq<char>) -> Seq<u8> {
    seq![(vstd::utf8::encode_utf8(key).len() % 256) as u8] + vstd::utf8::encode_utf8(key)
}

/// Data length code of record `k` of a device buffer: a record is 72 bytes,
/// four of identifier, four of header and 64 of data, and the low four bits
/// of the third header byte hold the code.
pub open spec fn record_dlc(buffer: Seq<u8>, k: int) -> u8 {
    buffer[k * 72 + 6] & 0x0f
}

/// Every record of the buffer announces at least one byte of data (the tail
/// byte), so that each has a tail to decode.
pub open spec fn records_have_data(buffer: Seq<u8>) -> bool {
    forall|k: int| 0 <= k < buffer.len() / 72 ==> #[trigger] record_dlc(buffer, k) != 0
}

/// The tail byte of a single-frame transfer: start, end and toggle bits
/// set, and the low five bits of the transfer identifier.
pub open spec fn single_frame_tail(transfer_id: u8) -> u8 {
    0xE0 | (transfer_id & 0x1f)
}

/// What holds of every train the segmenter makes: it has a frame, and each
/// frame fills between one byte and the whole frame buffer. A payload that
/// fits one frame beside the tail byte travels alone: the frame begins with
/// the payload and ends, after the padding that the frame length asks for,
/// with the tail byte.
pub open spec fn train_shape(train: Seq<TxPacket>, transfer_id: u8, payload: Seq<u8>) -> bool {
    &&& train.len() >= 1
    &&& forall|i: int|
        0 <= i < train.len() ==> (#[trigger] train[i]).payload@.len() == 64 && 1
            <= train[i].payload_size <= 64
    &&& payload.len() <= 63 ==> {
        &&& train.len() == 1
        &&& train[0].payload_size > payload.len()
        &&& train[0].payload@.take(payload.len() as int) == payload
        &&& train[0].payload@[train[0].payload_size - 1] == single_frame_tail(transfer_id)
    }
}

/// Calls `cands_transport::cyphal::crc_add` with the initial value and the
/// length of `data`; with that length it does not fail. It folds
/// `crc_add_byte` over the bytes, which shifts each byte in over eight
/// rounds of the polynomial 0x1021: that is `crc16`.
#[verifier::external_body]
pub(crate) fn transfer_crc(data: &[u8]) -> (crc: u16)
    ensures
        crc == crc16(data@),
{
    crc_add(CRC_INITIAL, data.len(), data).unwrap_or(CRC_INITIAL)
}

/// Calls `CyphalMiddleware::<64>::try_read`, which cuts the buffer into
/// records of 72 bytes and decodes each. It fails exactly when the length is
/// no multiple of 72; it gives one packet per record, each with a frame
/// buffer of 64 bytes of which at most 63 are data. A record that announces
/// no data makes it panic, so those are left out.
#[verifier::external_body]
pub(crate) fn read_packets(buffer: &[u8]) -> (r: Option<Vec<RxPacket>>)
    requires
        records_have_data(buffer@),
    ensures
        r.is_some() <==> buffer@.len() % 72 == 0,
        r matches Some(v) ==> {
            &&& rx_packets_view(v@) == decoded_packets(buffer@)
            &&& v@.len() == buffer@.len() / 72
            &&& forall|i: int|
                0 <= i < v@.len() ==> (#[trigger] v@[i]).payload@.len() == 64 && v@[i].payload_size
                    <= 63
        },
{
    let packets = CyphalMiddleware::<MTU_CAN_FD>::new(NODE_ID).try_read(buffer).ok()?;
    Some(packets.into_iter().map(|p| RxPacket {
        xid: p.xid, payload: p.payload.to_vec(), payload_size: p.payload_size, toggle: p.status.toggle,
        frame_type: match p.status.frame_type {
            SignleFrame => TransferType::SingleFrame, MultiFrameStart => TransferType::MultiFrameStart,
            MultiFrameInProcess => TransferType::MultiFrameInProcess, MultiFrameEnd => TransferType::MultiFrameEnd,
        },
        props: RxProps {
            priority: p.props.priority as u8, transfer_id: p.props.transfer_id, port_id: p.props.port_id,
            source_node_id: p.props.source_node_id, destination_node_id: p.props.destination_node_id,
            transfer_kind: match p.props.transfer_kind { Message => TransferKind::Message, Response => TransferKind::Response, Request => TransferKind::Request },
        },
    }).collect())
}

/// Calls `CyphalMiddleware::<64>::create_message_data` on a middleware of
/// this host's node identifier whose counter stands at `transfer_id`. It
/// succeeds exactly when the subject identifier is in range.
#[verifier::external_body]
pub(crate) fn message_frames(transfer_id: u8, subject_id: u16, payload: &[u8]) -> (r: Option<Vec<TxPacket>>)
    ensures
        r.is_some() <==> subject_id <= SUBJECT_ID_MAX,
        r matches Some(v) ==> tx_packets_view(v@) == message_train(transfer_id, subject_id, payload@)
            && train_shape(v@, transfer_id, payload@),
{
    let mut middleware = CyphalMiddleware::<MTU_CAN_FD>::new(NODE_ID);
    middleware.transfer_id = transfer_id;
    let packets = middleware.create_message_data(subject_id, payload, payload.len()).ok()?;
    Some(packets.into_iter().map(|p| TxPacket { xid: p.xid, payload: p.payload.to_vec(), payload_size: p.payload_size }).collect())
}

/// Calls `CyphalMiddleware::<64>::create_request_data` in the same way. It
/// succeeds exactly when the service and the destination node are in range.
#[verifier::external_body]
pub(crate) fn request_frames(transfer_id: u8, channel: u8, service_id: u16, payload: &[u8]) -> (r: Option<Vec<TxPacket>>)
    ensures
        r.is_some() <==> (service_id <= SERVICE_ID_MAX && channel <= NODE_ID_MAX),
        r matches Some(v) ==> tx_packets_view(v@) == request_train(transfer_id, channel, service_id, payload@)
            && train_shape(v@, transfer_id, payload@),
{
    let mut middleware = CyphalMiddleware::<MTU_CAN_FD>::new(NODE_ID);
    middleware.transfer_id = transfer_id;
    let packets = middleware.create_request_data(channel, service_id, payload, payload.len()).ok()?;
    Some(packets.into_iter().map(|p| TxPacket { xid: p.xid, payload: p.payload.to_vec(), payload_size: p.payload_size }).collect())
}

/// Calls `CyphalMiddleware::<64>::create_response_data` in the same way. It
/// succeeds exactly when the service and the destination node are in range.
#[verifier::external_body]
pub(crate) fn response_frames(transfer_id: u8, channel: u8, service_id: u16, payload: &[u8]) -> (r: Option<Vec<TxPacket>>)
    ensures
        r.is_some() <==> (service_id <= SERVICE_ID_MAX && channel <= NODE_ID_MAX),
        r matches Some(v) ==> tx_packets_view(v@) == response_train(transfer_id, channel, service_id, payload@)
            && train_shape(v@, transfer_id, payload@),
{
    let mut middleware = CyphalMiddleware::<MTU_CAN_FD>::new(NODE_ID);
    middleware.transfer_id = transfer_id;
    let packets = middleware.create_response_data(channel, service_id, payload, payload.len()).ok()?;
    Some(packets.into_iter().map(|p| TxPacket { xid: p.xid, payload: p.payload.to_vec(), payload_size: p.payload_size }).collect())
}

/// Calls `Str::serialize` of `cands_presentation`, which pushes the length
/// of the key in bytes, cut to one byte, and then the bytes of the key.
#[verifier::external_body]
pub(crate) fn serialize_key(key: &str) -> (bytes: Vec<u8>)
    ensures
        bytes@ == str_payload(key@),
{
    Str::serialize(key)
}

} // verus!
