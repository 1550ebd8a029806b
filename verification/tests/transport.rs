use cands_presentation::cyphal::digitalservo::dictionary::Dict;
use cands_transport::cyphal::{CyphalMiddleware, CAN_DLEN_TO_DLC};
use servo_canfd::frame::{LinkError, RxFrame, RxPacket, RxProps, TransferKind, TransferType, TxPacket};
use servo_canfd::interface::{CANInterface, DEFAULT_RETRY_COUNT, DEFAULT_TIMEOUT_MS};

/// One device FIFO record of a frame: identifier, header with the length
/// code, and the 64 bytes of the frame buffer.
fn record(xid: u32, payload: &[u8], size: usize) -> Vec<u8> {
    let mut out: Vec<u8> = Vec::new();
    out.extend_from_slice(&xid.to_le_bytes());
    let header: u32 = (CAN_DLEN_TO_DLC[size] as u32) << 16;
    out.extend_from_slice(&header.to_le_bytes());
    let mut data = [0u8; 64];
    data[..payload.len().min(64)].copy_from_slice(&payload[..payload.len().min(64)]);
    out.extend_from_slice(&data);
    out
}

fn records_of(train: &[TxPacket]) -> Vec<Vec<u8>> {
    train.iter().map(|p| record(p.xid, &p.payload, p.payload_size)).collect()
}

fn message_from(node: u8, subject: u16, payload: &[u8]) -> Vec<Vec<u8>> {
    let mut peer = CyphalMiddleware::<64>::new(node);
    peer.transfer_id = 9;
    let train = peer.create_message_data(subject, payload, payload.len()).unwrap();
    train.iter().map(|p| record(p.xid, &p.payload, p.payload_size)).collect()
}

fn joined(records: &[Vec<u8>]) -> Vec<u8> {
    records.iter().flat_map(|r| r.iter().copied()).collect()
}

fn pattern(len: usize) -> Vec<u8> {
    (0..len).map(|i| (i * 7 + 3) as u8).collect()
}

fn props(port_id: u16, source: u8) -> RxProps {
    RxProps {
        priority: 4,
        transfer_kind: TransferKind::Message,
        transfer_id: 0,
        port_id,
        source_node_id: source,
        destination_node_id: 255,
    }
}

fn status_frame(port_id: u16, source: u8, payload: Vec<u8>) -> RxFrame {
    RxFrame { xid: 0x1000 + source as u32, payload, props: props(port_id, source) }
}

fn packet(xid: u32, port_id: u16, data: &[u8], frame_type: TransferType, toggle: bool) -> RxPacket {
    let mut payload = vec![0u8; 64];
    payload[..data.len()].copy_from_slice(data);
    RxPacket { xid, payload, payload_size: data.len(), frame_type, toggle, props: props(port_id, 5) }
}

#[test]
fn new_interface_is_seeded_and_empty() {
    let can = CANInterface::new(1000);
    assert_eq!(can.transfer_id, 8);
    assert!(can.rx_complete_fifo.is_empty());
    assert!(can.rx_incomplete_fifo.is_empty());
    assert_eq!(can.timeout_ms, DEFAULT_TIMEOUT_MS);
    assert_eq!(can.retry_count, DEFAULT_RETRY_COUNT);
    assert_eq!(DEFAULT_TIMEOUT_MS, 50);
    assert_eq!(DEFAULT_RETRY_COUNT, 20);
}

#[test]
fn init_clears_fifos_and_reseeds() {
    let mut can = CANInterface::new(0);
    can.rx_complete_fifo.push(status_frame(0x87, 3, vec![0]));
    can.set_timeout(10);
    can.init(12345678901234567890123u128);
    assert_eq!(can.transfer_id, (12345678901234567890123u128 % 32) as u8);
    assert!(can.rx_complete_fifo.is_empty());
    assert_eq!(can.timeout_ms, 10);
}

#[test]
fn settings_are_set_and_reset() {
    let mut can = CANInterface::new(0);
    can.set_timeout(10);
    can.set_retry_count(2);
    assert_eq!((can.timeout_ms, can.retry_count), (10, 2));
    can.reset_settings();
    assert_eq!((can.timeout_ms, can.retry_count), (50, 20));
}

#[test]
fn single_frame_broadcast() {
    let mut can = CANInterface::new(5);
    let payload = Dict::serialize("cmdval", &[0.0f64]);
    let train = can.send_message(0x488, &payload).unwrap();
    assert_eq!(train.len(), 1);
    let frame = &train[0];
    assert_eq!((frame.xid >> 25) & 1, 0);
    assert_eq!((frame.xid >> 8) & 0x1fff, 0x488);
    assert_eq!(frame.xid & 0x7f, 127);
    let tail = frame.payload[frame.payload_size - 1];
    assert_eq!(tail & 0xC0, 0xC0);
    assert_eq!(tail & 0x1f, 5);
    assert_eq!(&frame.payload[..payload.len()], &payload[..]);
    assert_eq!(can.transfer_id, 6);
}

#[test]
fn transfer_id_wraps_at_thirty_two() {
    let mut can = CANInterface::new(31);
    let train = can.send_message(0x488, &[1, 2, 3]).unwrap();
    assert_eq!(train[0].payload[train[0].payload_size - 1] & 0x1f, 31);
    assert_eq!(can.transfer_id, 0);
    can.send_message(0x488, &[1, 2, 3]).unwrap();
    assert_eq!(can.transfer_id, 1);
}

#[test]
fn message_with_subject_out_of_range_is_refused() {
    let mut can = CANInterface::new(0);
    assert_eq!(can.send_message(8192, &[1]).unwrap_err(), LinkError::InvalidIdentifier);
    assert_eq!(can.transfer_id, 1);
    assert!(can.send_message(8191, &[1]).is_ok());
}

#[test]
fn payload_above_the_maximum_is_refused() {
    let mut can = CANInterface::new(0);
    assert_eq!(can.max_transfer_size, usize::MAX);
    assert_eq!(can.send_message(0x488, &pattern(5000)).unwrap().len(), 80);
    can.set_max_transfer_size(124);
    assert_eq!(can.send_message(0x488, &pattern(125)).unwrap_err(), LinkError::PayloadTooLarge);
    assert_eq!(can.send_request(0x81, 3, &pattern(125)).unwrap_err(), LinkError::PayloadTooLarge);
    assert_eq!(can.send_response(0x80, 3, &pattern(125)).unwrap_err(), LinkError::PayloadTooLarge);
    assert_eq!(can.send_message(9000, &pattern(125)).unwrap_err(), LinkError::PayloadTooLarge);
    assert_eq!(can.send_digitalservo_message(&pattern(125)).unwrap_err(), LinkError::PayloadTooLarge);
    assert_eq!(can.send_message(0x488, &pattern(124)).unwrap().len(), 2);
    assert_eq!(can.transfer_id, 7);
    can.set_max_transfer_size(3);
    assert_eq!(can.send_digitalservo_get_value_request(5, "trace").unwrap_err(), LinkError::PayloadTooLarge);
    can.reset_settings();
    assert_eq!(can.max_transfer_size, usize::MAX);
}

#[test]
fn padding_of_the_frame_length_is_received_with_the_payload() {
    let mut can = CANInterface::new(0);
    let payload = pattern(10);
    let train = can.send_message(0x488, &payload).unwrap();
    assert_eq!(train.len(), 1);
    assert_eq!(train[0].payload_size, 12);
    assert_eq!(train[0].payload[10], 0);
    assert_eq!(train[0].payload[11], 0xE0);
    assert_eq!(can.load_frames_from_buffer(&joined(&records_of(&train))), Ok(()));
    let mut padded = payload.clone();
    padded.push(0);
    assert_eq!(can.rx_complete_fifo[0].payload, padded);
}

#[test]
fn request_with_identifier_out_of_range_is_refused() {
    let mut can = CANInterface::new(0);
    assert_eq!(can.send_request(512, 3, &[1]).unwrap_err(), LinkError::InvalidIdentifier);
    assert_eq!(can.send_request(0x81, 128, &[1]).unwrap_err(), LinkError::InvalidIdentifier);
    assert_eq!(can.send_response(512, 3, &[1]).unwrap_err(), LinkError::InvalidIdentifier);
    assert_eq!(can.send_response(0x80, 200, &[1]).unwrap_err(), LinkError::InvalidIdentifier);
}

#[test]
fn request_and_response_identifiers() {
    let mut can = CANInterface::new(0);
    let request = can.send_request(0x81, 3, &[1, 2, 3]).unwrap();
    assert_eq!(request.len(), 1);
    let xid = request[0].xid;
    assert_eq!((xid >> 25) & 1, 1);
    assert_eq!((xid >> 24) & 1, 1);
    assert_eq!((xid >> 14) & 0x1ff, 0x81);
    assert_eq!((xid >> 7) & 0x7f, 3);
    assert_eq!(xid & 0x7f, 127);
    let response = can.send_response(0x80, 3, &[1, 2, 3]).unwrap();
    assert_eq!((response[0].xid >> 24) & 1, 0);
    assert_eq!((response[0].xid >> 14) & 0x1ff, 0x80);
}

#[test]
fn digitalservo_one_shot_transfers_use_their_ports() {
    let mut can = CANInterface::new(0);
    let message = can.send_digitalservo_message(&[9, 9]).unwrap();
    assert_eq!((message[0].xid >> 8) & 0x1fff, 0x488);
    let response = can.send_digitalservo_response(4, &[9, 9]).unwrap();
    assert_eq!((response[0].xid >> 14) & 0x1ff, 0x80);
    assert_eq!((response[0].xid >> 24) & 1, 0);
    let request = can.send_digitalservo_request(4, &[9, 9]).unwrap();
    assert_eq!((request[0].xid >> 14) & 0x1ff, 0x80);
    assert_eq!((request[0].xid >> 24) & 1, 1);
    let set = can.send_digitalservo_set_value_request(4, &[9, 9]).unwrap();
    assert_eq!((set[0].xid >> 14) & 0x1ff, 0x81);
    assert_eq!(can.send_digitalservo_request(128, &[9]).unwrap_err(), LinkError::InvalidIdentifier);
}

#[test]
fn get_value_request_carries_the_encoded_key() {
    let mut can = CANInterface::new(0);
    let train = can.send_digitalservo_get_value_request(5, "trace").unwrap();
    assert_eq!(train.len(), 1);
    assert_eq!((train[0].xid >> 14) & 0x1ff, 0x82);
    assert_eq!(&train[0].payload[..6], &[5, b't', b'r', b'a', b'c', b'e']);
}

#[test]
fn single_frame_round_trip() {
    let mut can = CANInterface::new(17);
    let payload = pattern(7);
    let train = can.send_message(0x488, &payload).unwrap();
    assert_eq!(train.len(), 1);
    let buffer = joined(&records_of(&train));
    assert_eq!(can.load_frames_from_buffer(&buffer), Ok(()));
    assert_eq!(can.rx_complete_fifo.len(), 1);
    let frame = &can.rx_complete_fifo[0];
    assert_eq!(frame.payload, payload);
    assert_eq!(frame.payload_size(), 7);
    assert_eq!(frame.props.transfer_id, 17);
    assert_eq!(frame.props.port_id, 0x488);
    assert_eq!(frame.props.source_node_id, 127);
    assert_eq!(frame.props.transfer_kind, TransferKind::Message);
    assert_eq!(frame.props.priority, 4);
    assert_eq!(frame.xid, train[0].xid);
}

#[test]
fn longest_single_frame_round_trip() {
    let mut can = CANInterface::new(0);
    let payload = pattern(63);
    let train = can.send_message(0x488, &payload).unwrap();
    assert_eq!(train.len(), 1);
    assert_eq!(train[0].payload_size, 64);
    assert_eq!(can.load_frames_from_buffer(&joined(&records_of(&train))), Ok(()));
    assert_eq!(can.rx_complete_fifo[0].payload, payload);
}

#[test]
fn multi_frame_round_trip() {
    let mut can = CANInterface::new(30);
    let payload = pattern(124);
    let train = can.send_request(0x81, 3, &payload).unwrap();
    assert_eq!(train.len(), 2);
    assert_eq!(train[0].payload[63] & 0xE0, 0xA0);
    assert_eq!(train[1].payload[63] & 0xE0, 0x40);
    assert_eq!(can.load_frames_from_buffer(&joined(&records_of(&train))), Ok(()));
    assert!(can.rx_incomplete_fifo.is_empty());
    assert_eq!(can.rx_complete_fifo.len(), 1);
    assert_eq!(can.rx_complete_fifo[0].payload, payload);
    assert_eq!(can.rx_complete_fifo[0].props.transfer_id, 30);
    assert_eq!(can.rx_complete_fifo[0].props.transfer_kind, TransferKind::Request);
    assert_eq!(can.rx_complete_fifo[0].props.destination_node_id, 3);
}

#[test]
fn checksum_split_over_two_frames_round_trip() {
    let mut can = CANInterface::new(0);
    let payload = pattern(125);
    let train = can.send_message(0x488, &payload).unwrap();
    assert_eq!(train.len(), 3);
    assert_eq!(train[2].payload_size, 2);
    assert_eq!(can.load_frames_from_buffer(&joined(&records_of(&train))), Ok(()));
    assert_eq!(can.rx_complete_fifo.len(), 1);
    assert_eq!(can.rx_complete_fifo[0].payload, payload);
}

#[test]
fn frames_may_arrive_in_separate_buffers() {
    let mut can = CANInterface::new(0);
    let payload = pattern(187);
    let records = message_from(5, 128, &payload);
    assert_eq!(records.len(), 3);
    assert_eq!(can.load_frames_from_buffer(&records[0]), Ok(()));
    assert_eq!(can.rx_incomplete_fifo.len(), 1);
    assert!(!can.rx_incomplete_fifo[0].expected_toggle);
    assert_eq!(can.load_frames_from_buffer(&records[1]), Ok(()));
    assert_eq!(can.rx_incomplete_fifo[0].payload.len(), 126);
    assert!(can.rx_incomplete_fifo[0].expected_toggle);
    assert!(can.rx_complete_fifo.is_empty());
    assert_eq!(can.load_frames_from_buffer(&records[2]), Ok(()));
    assert!(can.rx_incomplete_fifo.is_empty());
    assert_eq!(can.rx_complete_fifo[0].payload, payload);
    assert_eq!(can.rx_complete_fifo[0].props.transfer_id, 9);
    assert_eq!(can.rx_complete_fifo[0].props.source_node_id, 5);
}

#[test]
fn checksum_is_crc16_ccitt_false() {
    let mut can = CANInterface::new(0);
    let packets = vec![
        packet(0x77, 128, b"1234", TransferType::MultiFrameStart, true),
        packet(0x77, 128, &[b'5', b'6', b'7', b'8', b'9', 0x29, 0xB1], TransferType::MultiFrameEnd, false),
    ];
    assert_eq!(can.load_packets(&packets), Ok(()));
    assert_eq!(can.rx_complete_fifo.len(), 1);
    assert_eq!(can.rx_complete_fifo[0].payload, b"123456789".to_vec());
    let wrong = vec![
        packet(0x77, 128, b"1234", TransferType::MultiFrameStart, true),
        packet(0x77, 128, &[b'5', b'6', b'7', b'8', b'9', 0x29, 0xB0], TransferType::MultiFrameEnd, false),
    ];
    assert_eq!(can.load_packets(&wrong), Err(LinkError::CrcMismatch));
    assert_eq!(can.rx_complete_fifo.len(), 1);
    assert!(can.rx_incomplete_fifo.is_empty());
}

#[test]
fn stream_shorter_than_a_checksum_fails() {
    let mut can = CANInterface::new(0);
    let packets = vec![
        packet(0x77, 128, b"", TransferType::MultiFrameStart, true),
        packet(0x77, 128, &[1], TransferType::MultiFrameEnd, false),
    ];
    assert_eq!(can.load_packets(&packets), Err(LinkError::CrcMismatch));
    assert!(can.rx_complete_fifo.is_empty());
    assert!(can.rx_incomplete_fifo.is_empty());
}

#[test]
fn classify_reads_start_and_end_bits() {
    assert_eq!(TransferType::classify(true, true), TransferType::SingleFrame);
    assert_eq!(TransferType::classify(true, false), TransferType::MultiFrameStart);
    assert_eq!(TransferType::classify(false, false), TransferType::MultiFrameInProcess);
    assert_eq!(TransferType::classify(false, true), TransferType::MultiFrameEnd);
}

#[test]
fn dropped_frame_never_completes() {
    let payload = pattern(187);
    for dropped in 0..3 {
        let mut can = CANInterface::new(0);
        let mut records = message_from(5, 128, &payload);
        records.remove(dropped);
        assert_eq!(can.load_frames_from_buffer(&joined(&records)), Ok(()));
        assert!(can.rx_complete_fifo.is_empty());
        assert_eq!(can.rx_incomplete_fifo.len(), if dropped == 2 { 1 } else { 0 });
    }
}

#[test]
fn corrupted_byte_gives_one_crc_mismatch() {
    let mut can = CANInterface::new(0);
    let mut records = message_from(5, 128, &pattern(187));
    records[1][8 + 20] ^= 0x01;
    assert_eq!(can.load_frames_from_buffer(&joined(&records)), Err(LinkError::CrcMismatch));
    assert!(can.rx_complete_fifo.is_empty());
    assert!(can.rx_incomplete_fifo.is_empty());
    assert_eq!(can.load_frames_from_buffer(&joined(&message_from(5, 128, &pattern(187)))), Ok(()));
    assert_eq!(can.rx_complete_fifo.len(), 1);
}

#[test]
fn frames_after_a_crc_mismatch_are_not_read() {
    let mut can = CANInterface::new(0);
    let mut records = message_from(5, 128, &pattern(124));
    records[1][8] ^= 0xFF;
    records.extend(message_from(6, 0x87, &[0]));
    assert_eq!(can.load_frames_from_buffer(&joined(&records)), Err(LinkError::CrcMismatch));
    assert!(can.rx_complete_fifo.is_empty());
}

#[test]
fn interleaved_transfers_both_complete() {
    let first = pattern(187);
    let second: Vec<u8> = pattern(124).iter().map(|b| b ^ 0x55).collect();
    let a = message_from(5, 128, &first);
    let b = message_from(6, 129, &second);
    let orders: [[usize; 5]; 4] = [[0, 0, 0, 1, 1], [1, 1, 0, 0, 0], [0, 1, 0, 1, 0], [1, 0, 0, 1, 0]];
    for order in orders {
        let mut can = CANInterface::new(0);
        let (mut ia, mut ib) = (0, 0);
        let mut mix: Vec<Vec<u8>> = Vec::new();
        for pick in order {
            if pick == 0 {
                mix.push(a[ia].clone());
                ia += 1;
            } else {
                mix.push(b[ib].clone());
                ib += 1;
            }
        }
        assert_eq!(can.load_frames_from_buffer(&joined(&mix)), Ok(()));
        assert!(can.rx_incomplete_fifo.is_empty());
        assert_eq!(can.rx_complete_fifo.len(), 2);
        for frame in &can.rx_complete_fifo {
            if frame.props.port_id == 128 {
                assert_eq!(frame.payload, first);
            } else {
                assert_eq!(frame.props.port_id, 129);
                assert_eq!(frame.payload, second);
            }
        }
    }
}

#[test]
fn second_start_supersedes_the_partial() {
    let mut can = CANInterface::new(0);
    let old = message_from(5, 128, &pattern(187));
    let fresh_payload: Vec<u8> = pattern(124).iter().map(|b| b ^ 0xAA).collect();
    let fresh = message_from(5, 128, &fresh_payload);
    let mut mix = vec![old[0].clone(), old[1].clone()];
    mix.extend(fresh);
    assert_eq!(can.load_frames_from_buffer(&joined(&mix)), Ok(()));
    assert!(can.rx_incomplete_fifo.is_empty());
    assert_eq!(can.rx_complete_fifo.len(), 1);
    assert_eq!(can.rx_complete_fifo[0].payload, fresh_payload);
}

#[test]
fn later_frames_without_a_start_are_dropped() {
    let mut can = CANInterface::new(0);
    let packets = vec![
        packet(0x77, 128, b"abc", TransferType::MultiFrameInProcess, false),
        packet(0x77, 128, b"abc", TransferType::MultiFrameEnd, true),
    ];
    assert_eq!(can.load_packets(&packets), Ok(()));
    assert!(can.rx_complete_fifo.is_empty());
    assert!(can.rx_incomplete_fifo.is_empty());
}

#[test]
fn malformed_buffers_are_refused() {
    let mut can = CANInterface::new(0);
    assert_eq!(can.load_frames_from_buffer(&[0u8; 71]), Err(LinkError::MalformedBuffer));
    assert_eq!(can.load_frames_from_buffer(&[0u8; 72]), Err(LinkError::MalformedBuffer));
    let mut good = joined(&message_from(5, 128, &[1, 2, 3]));
    good.extend_from_slice(&[0u8; 72]);
    assert_eq!(can.load_frames_from_buffer(&good), Err(LinkError::MalformedBuffer));
    assert!(can.rx_complete_fifo.is_empty());
    assert_eq!(can.load_frames_from_buffer(&[]), Ok(()));
}

#[test]
fn get_result_filters_by_port_and_source() {
    let mut can = CANInterface::new(0);
    can.rx_complete_fifo.push(status_frame(0x87, 3, vec![0]));
    can.rx_complete_fifo.push(status_frame(128, 3, vec![7]));
    can.rx_complete_fifo.push(status_frame(0x87, 4, vec![1]));
    can.rx_complete_fifo.push(status_frame(0x87, 3, vec![2, 9]));
    let results = can.get_result(Some(3)).unwrap();
    assert_eq!(results.iter().map(|r| r.data).collect::<Vec<u8>>(), vec![0, 2]);
    assert_eq!(results[1].props.source_node_id, 3);
    assert_eq!(can.rx_complete_fifo.len(), 2);
    assert_eq!(can.rx_complete_fifo[0].props.port_id, 128);
    assert_eq!(can.rx_complete_fifo[1].props.source_node_id, 4);
    assert!(can.get_result(Some(3)).is_none());
    let rest = can.get_result(None).unwrap();
    assert_eq!(rest.len(), 1);
    assert_eq!(rest[0].data, 1);
    assert_eq!(can.rx_complete_fifo.len(), 1);
}

#[test]
fn get_error_drains_the_error_port() {
    let mut can = CANInterface::new(0);
    can.rx_complete_fifo.push(status_frame(0x17C0, 3, vec![5]));
    can.rx_complete_fifo.push(status_frame(0x87, 3, vec![0]));
    can.rx_complete_fifo.push(status_frame(0x17C0, 9, vec![]));
    assert!(can.get_error(Some(4)).is_none());
    let errors = can.get_error(None).unwrap();
    assert_eq!(errors.iter().map(|r| r.data).collect::<Vec<u8>>(), vec![5, 0]);
    assert_eq!(can.rx_complete_fifo.len(), 1);
    assert_eq!(can.rx_complete_fifo[0].props.port_id, 0x87);
}

#[test]
fn general_status_is_the_last_status_byte() {
    let mut can = CANInterface::new(0);
    assert_eq!(can.get_digitalservo_general_status(), 0xFF);
    can.rx_complete_fifo.push(status_frame(0x87, 3, vec![4]));
    can.rx_complete_fifo.push(status_frame(129, 3, vec![8]));
    can.rx_complete_fifo.push(status_frame(0x87, 6, vec![6, 1]));
    assert_eq!(can.get_digitalservo_general_status(), 6);
    assert_eq!(can.rx_complete_fifo.len(), 1);
    assert_eq!(can.rx_complete_fifo[0].props.port_id, 129);
    assert_eq!(can.get_digitalservo_general_status(), 0xFF);
}

#[test]
fn drain_marked_keeps_order() {
    let mut can = CANInterface::new(0);
    for id in 0..5u8 {
        can.rx_complete_fifo.push(status_frame(128, id, vec![id]));
    }
    let taken = can.drain_marked(&vec![true, false, true, true, false]);
    assert_eq!(taken.iter().map(|f| f.payload[0]).collect::<Vec<u8>>(), vec![0, 2, 3]);
    assert_eq!(can.rx_complete_fifo.iter().map(|f| f.payload[0]).collect::<Vec<u8>>(), vec![1, 4]);
}

#[test]
fn get_key_value_filters_by_key_and_source() {
    let mut can = CANInterface::new(0);
    can.rx_complete_fifo.push(status_frame(128, 5, Dict::serialize("trace", &[1u8])));
    can.rx_complete_fifo.push(status_frame(129, 5, Dict::serialize("other", &[2u8])));
    can.rx_complete_fifo.push(status_frame(0x87, 5, Dict::serialize("trace", &[3u8])));
    can.rx_complete_fifo.push(status_frame(1160, 6, Dict::serialize("trace", &[4u8])));
    can.rx_complete_fifo.push(status_frame(1160, 5, Dict::serialize("trace", &[5u8])));
    can.rx_complete_fifo.push(status_frame(128, 5, vec![1, 2]));
    let keys: Vec<Option<String>> = vec![
        Some("trace".to_string()),
        Some("other".to_string()),
        Some("trace".to_string()),
        Some("trace".to_string()),
        Some("trace".to_string()),
        None,
    ];
    let taken = can.get_key_value(Some("trace"), Some(5), &keys).unwrap();
    assert_eq!(taken.len(), 2);
    assert_eq!(taken[0].props.port_id, 128);
    assert_eq!(taken[1].props.port_id, 1160);
    assert_eq!(can.rx_complete_fifo.len(), 4);
    let keys: Vec<Option<String>> = vec![Some("other".to_string()), Some("trace".to_string()), Some("trace".to_string()), None];
    assert!(can.get_key_value(Some("absent"), None, &keys).is_none());
    let any = can.get_key_value(None, None, &keys).unwrap();
    assert_eq!(any.len(), 2);
    assert_eq!(can.rx_complete_fifo.len(), 2);
    assert_eq!(can.rx_complete_fifo[0].props.port_id, 0x87);
}

#[test]
fn clearing_fifos() {
    let mut can = CANInterface::new(0);
    let records = message_from(5, 128, &pattern(187));
    can.load_frames_from_buffer(&records[0]).unwrap();
    can.rx_complete_fifo.push(status_frame(0x87, 3, vec![0]));
    can.clear_rx_incomplete_fifo();
    assert!(can.rx_incomplete_fifo.is_empty());
    assert_eq!(can.rx_complete_fifo.len(), 1);
    can.clear_rx_complete_fifo();
    assert!(can.rx_complete_fifo.is_empty());
    can.load_frames_from_buffer(&records[0]).unwrap();
    can.rx_complete_fifo.push(status_frame(0x87, 3, vec![0]));
    can.reset_rx_fifo();
    assert!(can.rx_complete_fifo.is_empty() && can.rx_incomplete_fifo.is_empty());
}
