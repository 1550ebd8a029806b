use cands_presentation::cyphal::digitalservo::dictionary::Dict;
use cands_transport::cyphal::{CyphalMiddleware, CAN_DLEN_TO_DLC};
use servo_canfd::frame::{LinkError, RxData, RxProps, TransferKind};
use servo_canfd::interface::CANInterface;
use servo_canfd::transaction::{all_zero, Action, Event, Phase, Transaction};

fn reply_records(node: u8, subject: u16, payload: &[u8]) -> Vec<Vec<u8>> {
    let mut peer = CyphalMiddleware::<64>::new(node);
    let train = peer.create_message_data(subject, payload, payload.len()).unwrap();
    train
        .iter()
        .map(|p| {
            let mut out: Vec<u8> = Vec::new();
            out.extend_from_slice(&p.xid.to_le_bytes());
            out.extend_from_slice(&((CAN_DLEN_TO_DLC[p.payload_size] as u32) << 16).to_le_bytes());
            out.extend_from_slice(&p.payload);
            out
        })
        .collect()
}

fn flat(records: &[Vec<u8>]) -> Vec<u8> {
    records.iter().flat_map(|r| r.iter().copied()).collect()
}

fn decoded_keys(can: &CANInterface) -> Vec<Option<String>> {
    can.rx_complete_fifo
        .iter()
        .map(|f| match f.props.port_id {
            128 | 129 | 1160 => Dict::deserialize(&f.payload).ok().map(|d| d.key),
            _ => None,
        })
        .collect()
}

#[test]
fn reliable_set_success() {
    let mut can = CANInterface::new(0);
    let payload = Dict::serialize("drive", &[true]);
    let mut txn = Transaction::begin(can.retry_count);
    assert_eq!(txn.action(), Action::Send);
    let request = can.send_digitalservo_set_value_request(3, &payload).unwrap();
    assert_eq!(request.len(), 1);
    assert_eq!(txn.next(Event::Sent), Action::Poll);
    can.load_frames_from_buffer(&flat(&reply_records(3, 0x87, &[0x00]))).unwrap();
    assert!(can.poll_set_value_reply(3));
    assert_eq!(txn.next(Event::ReplyAccepted), Action::Succeed);
    assert_eq!(txn.phase, Phase::Succeeded);
    assert_eq!(txn.attempts_left, 19);
    assert!(can.rx_complete_fifo.is_empty());
}

#[test]
fn reliable_set_retry() {
    let mut txn = Transaction::begin(5);
    let mut sends = 0;
    let mut action = txn.action();
    let script = [Event::DeadlineElapsed, Event::DeadlineElapsed, Event::ReplyAccepted];
    let mut replies = script.iter();
    loop {
        action = match action {
            Action::Send => {
                sends += 1;
                txn.next(Event::Sent)
            }
            Action::Poll => txn.next(*replies.next().unwrap()),
            Action::Succeed => break,
            Action::Fail(e) => panic!("failed with {:?}", e),
        };
    }
    assert_eq!(sends, 3);
    assert_eq!(txn.attempts_left, 2);
}

#[test]
fn reliable_set_timeout() {
    let mut txn = Transaction::begin(2);
    assert_eq!(txn.next(Event::Sent), Action::Poll);
    assert_eq!(txn.next(Event::NoReply), Action::Poll);
    assert_eq!(txn.next(Event::DeadlineElapsed), Action::Send);
    assert_eq!(txn.next(Event::Sent), Action::Poll);
    assert_eq!(txn.next(Event::DeadlineElapsed), Action::Fail(LinkError::Timeout));
    assert_eq!(txn.next(Event::ReplyAccepted), Action::Fail(LinkError::Timeout));
}

#[test]
fn no_attempts_is_a_timeout() {
    let txn = Transaction::begin(0);
    assert_eq!(txn.action(), Action::Fail(LinkError::Timeout));
}

#[test]
fn transmit_failure_ends_the_request() {
    let mut txn = Transaction::begin(3);
    assert_eq!(txn.next(Event::TransmitFailed), Action::Fail(LinkError::TransportFailure));
    assert_eq!(txn.next(Event::Sent), Action::Fail(LinkError::TransportFailure));
}

#[test]
fn events_out_of_phase_change_nothing() {
    let mut txn = Transaction::begin(3);
    assert_eq!(txn.next(Event::ReplyAccepted), Action::Send);
    assert_eq!(txn.next(Event::DeadlineElapsed), Action::Send);
    assert_eq!(txn.attempts_left, 2);
    assert_eq!(txn.next(Event::Sent), Action::Poll);
    assert_eq!(txn.next(Event::Sent), Action::Poll);
}

#[test]
fn reply_with_nonzero_status_is_not_accepted() {
    let mut can = CANInterface::new(0);
    let mut records = reply_records(3, 0x87, &[0x00]);
    records.extend(reply_records(3, 0x87, &[0x02]));
    records.extend(reply_records(4, 0x87, &[0x00]));
    can.load_frames_from_buffer(&flat(&records)).unwrap();
    assert!(!can.poll_set_value_reply(3));
    assert_eq!(can.rx_complete_fifo.len(), 1);
    assert!(!can.poll_set_value_reply(3));
    assert!(can.poll_set_value_reply(4));
    assert!(!can.poll_set_value_reply(4));
}

#[test]
fn all_zero_on_batches() {
    let props = RxProps {
        priority: 4,
        transfer_kind: TransferKind::Message,
        transfer_id: 0,
        port_id: 0x87,
        source_node_id: 3,
        destination_node_id: 255,
    };
    assert!(all_zero(&vec![]));
    assert!(all_zero(&vec![RxData { data: 0, props }, RxData { data: 0, props }]));
    assert!(!all_zero(&vec![RxData { data: 0, props }, RxData { data: 1, props }]));
}

#[test]
fn multi_frame_get() {
    let mut can = CANInterface::new(0);
    let values: Vec<f64> = (0..16).map(|i| i as f64 * 0.5).collect();
    let reply = Dict::serialize("trace", &values);
    assert!(reply.len() > 124 && reply.len() <= 187);
    let records = reply_records(5, 128, &reply);
    assert_eq!(records.len(), 3);
    let mut txn = Transaction::begin(can.retry_count);
    let request = can.send_digitalservo_get_value_request(5, "trace").unwrap();
    assert_eq!(request.len(), 1);
    assert_eq!(txn.next(Event::Sent), Action::Poll);
    assert_eq!(can.load_frames_from_buffer(&flat(&records)), Ok(()));
    let keys = decoded_keys(&can);
    let frames = can.get_key_value(Some("trace"), Some(5), &keys).unwrap();
    assert_eq!(txn.next(Event::ReplyAccepted), Action::Succeed);
    assert_eq!(frames.len(), 1);
    let dict = Dict::deserialize(&frames[0].payload).unwrap();
    assert_eq!(dict.key, "trace");
    assert_eq!(dict.value.len(), 16);
    assert_eq!(&frames[0].payload[..reply.len()], &reply[..]);
}

#[test]
fn multi_frame_crc_failure() {
    let mut can = CANInterface::new(0);
    can.set_retry_count(2);
    let values: Vec<f64> = (0..16).map(|i| i as f64 * 0.5).collect();
    let mut records = reply_records(5, 128, &Dict::serialize("trace", &values));
    records[1][8 + 30] ^= 0x10;
    let mut txn = Transaction::begin(can.retry_count);
    let mut action = txn.action();
    let mut mismatches = 0;
    loop {
        action = match action {
            Action::Send => {
                can.send_digitalservo_get_value_request(5, "trace").unwrap();
                txn.next(Event::Sent)
            }
            Action::Poll => {
                if can.load_frames_from_buffer(&flat(&records)) == Err(LinkError::CrcMismatch) {
                    mismatches += 1;
                }
                let keys = decoded_keys(&can);
                assert!(can.get_key_value(Some("trace"), Some(5), &keys).is_none());
                txn.next(Event::DeadlineElapsed)
            }
            Action::Succeed => panic!("accepted a corrupted reply"),
            Action::Fail(e) => {
                assert_eq!(e, LinkError::Timeout);
                break;
            }
        };
    }
    assert_eq!(mismatches, 2);
    assert!(can.rx_complete_fifo.is_empty());
}
