//! The interface state: receive FIFOs, transfer counter and settings, and
//! the one-shot transfers.

use vstd::prelude::*;
use crate::codec::{message_frames, message_train, request_frames, request_train, response_frames, response_train, serialize_key, str_payload, train_shape, NODE_ID_MAX, SERVICE_ID_MAX, SUBJECT_ID_MAX};
use crate::frame::{LinkError, ReassemblyBuffer, RxFrame, TxPacket, tx_packets_view};
use crate::independence::{buffers_of, one_buffer_per_key};

verus! {

/// Timeout of one attempt of a reliable call, in milliseconds, unless set.
pub const DEFAULT_TIMEOUT_MS: u64 = 50;

/// Number of attempts of a reliable call, unless set.
pub const DEFAULT_RETRY_COUNT: u32 = 20;

/// Largest payload of one transfer, unless set: no limit beyond the machine's.
pub const DEFAULT_MAX_TRANSFER_SIZE: usize = usize::MAX;

/// Pause between two looks at the receive FIFO while waiting for a reply,
/// in milliseconds.
pub const CHECK_FIFO_POLLING_MS: u64 = 2;

/// Subject of broadcast key/value messages.
pub const SUBJECT_BROADCAST: u16 = 0x488;

/// Service of one-shot key/value requests and responses.
pub const SERVICE_KEY_VALUE: u16 = 0x80;

/// Service of a reliable set request.
pub const SERVICE_SET_VALUE: u16 = 0x81;

/// Service of a get request.
pub const SERVICE_GET_VALUE: u16 = 0x82;

/// State of one host on the bus.
pub struct CANInterface {
    pub transfer_id: u8,
    pub rx_complete_fifo: Vec<RxFrame>,
    pub rx_incomplete_fifo: Vec<ReassemblyBuffer>,
    pub timeout_ms: u64,
    pub retry_count: u32,
    pub max_transfer_size: usize,
}

/// The transfer identifier that a wall-clock reading seeds.
pub open spec fn seeded_transfer_id(now_millis: u128) -> u8 {
    (now_millis % 32) as u8
}

/// The transfer identifier after `transfer_id`: one more, modulo 32.
pub open spec fn next_transfer_id(transfer_id: u8) -> u8 {
    ((transfer_id + 1) % 32) as u8
}

impl CANInterface {
    /// The invariant of the interface: the transfer counter is below 32, and
    /// at most one transfer is in progress under each key.
    pub open spec fn wf(&self) -> bool {
        self.transfer_id < 32 && one_buffer_per_key(self.rx_state())
    }

    /// Whether two interfaces agree in all but the transfer counter.
    pub open spec fn same_but_counter(&self, other: CANInterface) -> bool {
        &&& self.rx_complete_fifo == other.rx_complete_fifo
        &&& self.rx_incomplete_fifo == other.rx_incomplete_fifo
        &&& self.timeout_ms == other.timeout_ms
        &&& self.retry_count == other.retry_count
        &&& self.max_transfer_size == other.max_transfer_size
    }

    /// The error with which a transfer is refused, if it is: a payload
    /// above the largest supported size, else identifiers out of range.
    pub open spec fn refusal(&self, payload_len: nat, identifiers_valid: bool) -> Option<LinkError> {
        if payload_len > self.max_transfer_size {
            Some(LinkError::PayloadTooLarge)
        } else if !identifiers_valid {
            Some(LinkError::InvalidIdentifier)
        } else {
            None
        }
    }

    /// An interface with empty FIFOs and default settings, whose transfer
    /// counter is seeded from a wall-clock reading in milliseconds, so that
    /// peers do not take its first transfers for repetitions.
    pub fn new(now_millis: u128) -> (s: Self)
        ensures
            s.transfer_id == seeded_transfer_id(now_millis),
            s.rx_complete_fifo@.len() == 0,
            s.rx_incomplete_fifo@.len() == 0,
            s.timeout_ms == DEFAULT_TIMEOUT_MS,
            s.retry_count == DEFAULT_RETRY_COUNT,
            s.max_transfer_size == DEFAULT_MAX_TRANSFER_SIZE,
            s.wf(),
    {
        let s = CANInterface {
            transfer_id: (now_millis % 32) as u8,
            rx_complete_fifo: Vec::new(),
            rx_incomplete_fifo: Vec::new(),
            timeout_ms: DEFAULT_TIMEOUT_MS,
            retry_count: DEFAULT_RETRY_COUNT,
            max_transfer_size: DEFAULT_MAX_TRANSFER_SIZE,
        };
        proof {
            s.lemma_empty_table_is_wf();
        }
        s
    }

    pub(crate) proof fn lemma_empty_table_is_wf(&self)
        requires
            self.rx_incomplete_fifo@.len() == 0,
        ensures
            one_buffer_per_key(self.rx_state()),
    {
        assert forall|xid: u32, port_id: u16| #[trigger]
            buffers_of(self.rx_state().incomplete, xid, port_id).len() <= 1 by {
            assert(self.rx_state().incomplete.len() == 0);
        }
    }

    /// Empties both FIFOs and seeds the transfer counter anew.
    pub fn init(&mut self, now_millis: u128)
        ensures
            final(self).transfer_id == seeded_transfer_id(now_millis),
            final(self).rx_complete_fifo@.len() == 0,
            final(self).rx_incomplete_fifo@.len() == 0,
            final(self).timeout_ms == old(self).timeout_ms,
            final(self).retry_count == old(self).retry_count,
            final(self).max_transfer_size == old(self).max_transfer_size,
            final(self).wf(),
    {
        self.reset_rx_fifo();
        self.transfer_id = (now_millis % 32) as u8;
        proof {
            self.lemma_empty_table_is_wf();
        }
    }

    /// Sets the timeout of one attempt, in milliseconds.
    pub fn set_timeout(&mut self, timeout_ms: u64)
        ensures
            final(self).timeout_ms == timeout_ms,
            final(self).retry_count == old(self).retry_count,
            final(self).max_transfer_size == old(self).max_transfer_size,
            final(self).transfer_id == old(self).transfer_id,
            final(self).rx_complete_fifo == old(self).rx_complete_fifo,
            final(self).rx_incomplete_fifo == old(self).rx_incomplete_fifo,
            old(self).wf() ==> final(self).wf(),
    {
        self.timeout_ms = timeout_ms;
    }

    /// Sets the number of attempts of a reliable call.
    pub fn set_retry_count(&mut self, retry_count: u32)
        ensures
            final(self).retry_count == retry_count,
            final(self).timeout_ms == old(self).timeout_ms,
            final(self).max_transfer_size == old(self).max_transfer_size,
            final(self).transfer_id == old(self).transfer_id,
            final(self).rx_complete_fifo == old(self).rx_complete_fifo,
            final(self).rx_incomplete_fifo == old(self).rx_incomplete_fifo,
            old(self).wf() ==> final(self).wf(),
    {
        self.retry_count = retry_count;
    }

    /// Sets the largest payload that one transfer may carry.
    pub fn set_max_transfer_size(&mut self, max_transfer_size: usize)
        ensures
            final(self).max_transfer_size == max_transfer_size,
            final(self).timeout_ms == old(self).timeout_ms,
            final(self).retry_count == old(self).retry_count,
            final(self).transfer_id == old(self).transfer_id,
            final(self).rx_complete_fifo == old(self).rx_complete_fifo,
            final(self).rx_incomplete_fifo == old(self).rx_incomplete_fifo,
            old(self).wf() ==> final(self).wf(),
    {
        self.max_transfer_size = max_transfer_size;
    }

    /// Puts timeout, attempt count and largest transfer back to their
    /// defaults.
    pub fn reset_settings(&mut self)
        ensures
            final(self).timeout_ms == DEFAULT_TIMEOUT_MS,
            final(self).retry_count == DEFAULT_RETRY_COUNT,
            final(self).max_transfer_size == DEFAULT_MAX_TRANSFER_SIZE,
            final(self).transfer_id == old(self).transfer_id,
            final(self).rx_complete_fifo == old(self).rx_complete_fifo,
            final(self).rx_incomplete_fifo == old(self).rx_incomplete_fifo,
            old(self).wf() ==> final(self).wf(),
    {
        self.timeout_ms = DEFAULT_TIMEOUT_MS;
        self.retry_count = DEFAULT_RETRY_COUNT;
        self.max_transfer_size = DEFAULT_MAX_TRANSFER_SIZE;
    }

    /// Empties both FIFOs.
    pub fn reset_rx_fifo(&mut self)
        ensures
            final(self).rx_complete_fifo@.len() == 0,
            final(self).rx_incomplete_fifo@.len() == 0,
            final(self).transfer_id == old(self).transfer_id,
            final(self).timeout_ms == old(self).timeout_ms,
            final(self).retry_count == old(self).retry_count,
            final(self).max_transfer_size == old(self).max_transfer_size,
            old(self).transfer_id < 32 ==> final(self).wf(),
    {
        self.rx_complete_fifo.clear();
        self.rx_incomplete_fifo.clear();
        proof {
            self.lemma_empty_table_is_wf();
        }
    }

    /// Takes the current transfer identifier and advances the counter.
    fn take_transfer_id(&mut self) -> (id: u8)
        ensures
            id == old(self).transfer_id,
            final(self).transfer_id == next_transfer_id(old(self).transfer_id),
            final(self).same_but_counter(*old(self)),
            old(self).wf() ==> final(self).wf(),
    {
        let id: u8 = self.transfer_id;
        self.transfer_id = if id % 32 == 31 {
            0
        } else {
            id % 32 + 1
        };
        id
    }

    /// Segments a broadcast message into frames for transmission, in order,
    /// under the current transfer identifier, and advances the counter. A
    /// subject identifier above 8191 is refused.
    pub fn send_message(&mut self, subject_id: u16, payload: &[u8]) -> (r: Result<Vec<TxPacket>, LinkError>)
        ensures
            final(self).transfer_id == next_transfer_id(old(self).transfer_id),
            final(self).same_but_counter(*old(self)),
            old(self).wf() ==> final(self).wf(),
            r.is_ok() <==> old(self).refusal(payload@.len(), subject_id <= SUBJECT_ID_MAX).is_none(),
            r matches Ok(v) ==> tx_packets_view(v@) == message_train(
                old(self).transfer_id,
                subject_id,
                payload@,
            ) && train_shape(v@, old(self).transfer_id, payload@),
            r matches Err(e) ==> Some(e) == old(self).refusal(
                payload@.len(),
                subject_id <= SUBJECT_ID_MAX,
            ),
    {
        let id = self.take_transfer_id();
        if payload.len() > self.max_transfer_size {
            return Err(LinkError::PayloadTooLarge);
        }
        match message_frames(id, subject_id, payload) {
            Some(v) => Ok(v),
            None => Err(LinkError::InvalidIdentifier),
        }
    }

    /// Segments a service response to node `channel` in the same way. A
    /// service identifier above 511 or a node above 127 is refused.
    pub fn send_response(&mut self, service_id: u16, channel: u8, payload: &[u8]) -> (r: Result<Vec<TxPacket>, LinkError>)
        ensures
            final(self).transfer_id == next_transfer_id(old(self).transfer_id),
            final(self).same_but_counter(*old(self)),
            old(self).wf() ==> final(self).wf(),
            r.is_ok() <==> old(self).refusal(
                payload@.len(),
                service_id <= SERVICE_ID_MAX && channel <= NODE_ID_MAX,
            ).is_none(),
            r matches Ok(v) ==> tx_packets_view(v@) == response_train(
                old(self).transfer_id,
                channel,
                service_id,
                payload@,
            ) && train_shape(v@, old(self).transfer_id, payload@),
            r matches Err(e) ==> Some(e) == old(self).refusal(
                payload@.len(),
                service_id <= SERVICE_ID_MAX && channel <= NODE_ID_MAX,
            ),
    {
        let id = self.take_transfer_id();
        if payload.len() > self.max_transfer_size {
            return Err(LinkError::PayloadTooLarge);
        }
        match response_frames(id, channel, service_id, payload) {
            Some(v) => Ok(v),
            None => Err(LinkError::InvalidIdentifier),
        }
    }

    /// Segments a service request to node `channel` in the same way. A
    /// service identifier above 511 or a node above 127 is refused.
    pub fn send_request(&mut self, service_id: u16, channel: u8, payload: &[u8]) -> (r: Result<Vec<TxPacket>, LinkError>)
        ensures
            final(self).transfer_id == next_transfer_id(old(self).transfer_id),
            final(self).same_but_counter(*old(self)),
            old(self).wf() ==> final(self).wf(),
            r.is_ok() <==> old(self).refusal(
                payload@.len(),
                service_id <= SERVICE_ID_MAX && channel <= NODE_ID_MAX,
            ).is_none(),
            r matches Ok(v) ==> tx_packets_view(v@) == request_train(
                old(self).transfer_id,
                channel,
                service_id,
                payload@,
            ) && train_shape(v@, old(self).transfer_id, payload@),
            r matches Err(e) ==> Some(e) == old(self).refusal(
                payload@.len(),
                service_id <= SERVICE_ID_MAX && channel <= NODE_ID_MAX,
            ),
    {
        let id = self.take_transfer_id();
        if payload.len() > self.max_transfer_size {
            return Err(LinkError::PayloadTooLarge);
        }
        match request_frames(id, channel, service_id, payload) {
            Some(v) => Ok(v),
            None => Err(LinkError::InvalidIdentifier),
        }
    }

    /// The frames of a broadcast key/value message with an encoded payload:
    /// subject 0x488. No node acknowledges it.
    pub fn send_digitalservo_message(&mut self, payload: &[u8]) -> (r: Result<Vec<TxPacket>, LinkError>)
        ensures
            final(self).transfer_id == next_transfer_id(old(self).transfer_id),
            final(self).same_but_counter(*old(self)),
            old(self).wf() ==> final(self).wf(),
            r.is_ok() <==> payload@.len() <= old(self).max_transfer_size,
            r matches Ok(v) ==> tx_packets_view(v@) == message_train(
                old(self).transfer_id,
                SUBJECT_BROADCAST,
                payload@,
            ) && train_shape(v@, old(self).transfer_id, payload@),
            r matches Err(e) ==> e == LinkError::PayloadTooLarge,
    {
        self.send_message(SUBJECT_BROADCAST, payload)
    }

    /// The frames of a one-shot key/value response with an encoded payload:
    /// service 0x80. Kept for callers of the older protocol.
    pub fn send_digitalservo_response(&mut self, channel: u8, payload: &[u8]) -> (r: Result<Vec<TxPacket>, LinkError>)
        ensures
            final(self).transfer_id == next_transfer_id(old(self).transfer_id),
            final(self).same_but_counter(*old(self)),
            old(self).wf() ==> final(self).wf(),
            r.is_ok() <==> old(self).refusal(payload@.len(), channel <= NODE_ID_MAX).is_none(),
            r matches Ok(v) ==> tx_packets_view(v@) == response_train(
                old(self).transfer_id,
                channel,
                SERVICE_KEY_VALUE,
                payload@,
            ) && train_shape(v@, old(self).transfer_id, payload@),
            r matches Err(e) ==> Some(e) == old(self).refusal(payload@.len(), channel <= NODE_ID_MAX),
    {
        self.send_response(SERVICE_KEY_VALUE, channel, payload)
    }

    /// The frames of a one-shot key/value request with an encoded payload:
    /// service 0x80. Kept for callers of the older protocol.
    pub fn send_digitalservo_request(&mut self, channel: u8, payload: &[u8]) -> (r: Result<Vec<TxPacket>, LinkError>)
        ensures
            final(self).transfer_id == next_transfer_id(old(self).transfer_id),
            final(self).same_but_counter(*old(self)),
            old(self).wf() ==> final(self).wf(),
            r.is_ok() <==> old(self).refusal(payload@.len(), channel <= NODE_ID_MAX).is_none(),
            r matches Ok(v) ==> tx_packets_view(v@) == request_train(
                old(self).transfer_id,
                channel,
                SERVICE_KEY_VALUE,
                payload@,
            ) && train_shape(v@, old(self).transfer_id, payload@),
            r matches Err(e) ==> Some(e) == old(self).refusal(payload@.len(), channel <= NODE_ID_MAX),
    {
        self.send_request(SERVICE_KEY_VALUE, channel, payload)
    }

    /// The frames of a set request with an encoded payload: service 0x81.
    pub fn send_digitalservo_set_value_request(&mut self, channel: u8, payload: &[u8]) -> (r: Result<Vec<TxPacket>, LinkError>)
        ensures
            final(self).transfer_id == next_transfer_id(old(self).transfer_id),
            final(self).same_but_counter(*old(self)),
            old(self).wf() ==> final(self).wf(),
            r.is_ok() <==> old(self).refusal(payload@.len(), channel <= NODE_ID_MAX).is_none(),
            r matches Ok(v) ==> tx_packets_view(v@) == request_train(
                old(self).transfer_id,
                channel,
                SERVICE_SET_VALUE,
                payload@,
            ) && train_shape(v@, old(self).transfer_id, payload@),
            r matches Err(e) ==> Some(e) == old(self).refusal(payload@.len(), channel <= NODE_ID_MAX),
    {
        self.send_request(SERVICE_SET_VALUE, channel, payload)
    }

    /// The frames of a get request for `key`: service 0x82, with the key
    /// encoded as the payload.
    pub fn send_digitalservo_get_value_request(&mut self, channel: u8, key: &str) -> (r: Result<Vec<TxPacket>, LinkError>)
        ensures
            final(self).transfer_id == next_transfer_id(old(self).transfer_id),
            final(self).same_but_counter(*old(self)),
            old(self).wf() ==> final(self).wf(),
            r.is_ok() <==> old(self).refusal(str_payload(key@).len(), channel <= NODE_ID_MAX).is_none(),
            r matches Ok(v) ==> tx_packets_view(v@) == request_train(
                old(self).transfer_id,
                channel,
                SERVICE_GET_VALUE,
                str_payload(key@),
            ) && train_shape(v@, old(self).transfer_id, str_payload(key@)),
            r matches Err(e) ==> Some(e) == old(self).refusal(
                str_payload(key@).len(),
                channel <= NODE_ID_MAX,
            ),
    {
        let payload = serialize_key(key);
        self.send_request(SERVICE_GET_VALUE, channel, payload.as_slice())
    }
}

} // verus!
