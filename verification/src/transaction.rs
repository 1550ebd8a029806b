//! The decisions of a reliable request: when to send, when to look for a
//! reply, when to give up. The caller performs each action and reports
//! what happened.

use vstd::prelude::*;
use crate::frame::{LinkError, RxData, RxFrameView};
use crate::interface::CANInterface;
use crate::read::{inverted, picked, port_marks, status_byte, status_data, PORT_RESULT};

verus! {

/// Where a reliable request stands.
#[derive(Clone, Copy, Debug, PartialEq, Eq, Structural)]
pub enum Phase {
    /// The request of the current attempt is to be sent.
    Sending,
    /// The request is out and its deadline has not passed.
    Waiting,
    /// A qualifying reply came in time.
    Succeeded,
    /// The request ended without one.
    Failed(LinkError),
}

/// What the caller observed after performing an action.
#[derive(Clone, Copy, Debug, PartialEq, Eq, Structural)]
pub enum Event {
    /// The request went out.
    Sent,
    /// The adapter refused the request.
    TransmitFailed,
    /// A look at the receive FIFO, before the deadline, found a qualifying
    /// reply.
    ReplyAccepted,
    /// A look at the receive FIFO, before the deadline, found none.
    NoReply,
    /// The deadline of the current attempt passed.
    DeadlineElapsed,
}

/// What the caller is to do next.
#[derive(Clone, Copy, Debug, PartialEq, Eq, Structural)]
pub enum Action {
    /// Send the request and start the deadline of the attempt.
    Send,
    /// Load frames, look for a reply, and pause where there is none.
    Poll,
    /// Return success.
    Succeed,
    /// Return the error.
    Fail(LinkError),
}

/// A reliable request in progress: its phase, and the attempts that may
/// still be started after the current one.
#[derive(Clone, Copy, Debug, PartialEq, Eq, Structural)]
pub struct Transaction {
    pub phase: Phase,
    pub attempts_left: u32,
}

/// The transaction of a request with `retry_count` attempts, before any
/// action: with no attempt allowed it has timed out already.
pub open spec fn started(retry_count: u32) -> Transaction {
    if retry_count == 0 {
        Transaction { phase: Phase::Failed(LinkError::Timeout), attempts_left: 0 }
    } else {
        Transaction { phase: Phase::Sending, attempts_left: (retry_count - 1) as u32 }
    }
}

/// The transaction after one event. An event that does not belong to the
/// phase changes nothing.
pub open spec fn advanced(t: Transaction, e: Event) -> Transaction {
    match (t.phase, e) {
        (Phase::Sending, Event::Sent) => Transaction { phase: Phase::Waiting, ..t },
        (Phase::Sending, Event::TransmitFailed) => Transaction {
            phase: Phase::Failed(LinkError::TransportFailure),
            ..t
        },
        (Phase::Waiting, Event::ReplyAccepted) => Transaction { phase: Phase::Succeeded, ..t },
        (Phase::Waiting, Event::DeadlineElapsed) => if t.attempts_left > 0 {
            Transaction { phase: Phase::Sending, attempts_left: (t.attempts_left - 1) as u32 }
        } else {
            Transaction { phase: Phase::Failed(LinkError::Timeout), ..t }
        },
        _ => t,
    }
}

/// The action that a phase asks for.
pub open spec fn action_of(phase: Phase) -> Action {
    match phase {
        Phase::Sending => Action::Send,
        Phase::Waiting => Action::Poll,
        Phase::Succeeded => Action::Succeed,
        Phase::Failed(e) => Action::Fail(e),
    }
}

/// The transaction after a sequence of events.
pub open spec fn after(t: Transaction, events: Seq<Event>) -> Transaction
    decreases events.len(),
{
    if events.len() == 0 {
        t
    } else {
        advanced(after(t, events.drop_last()), events.last())
    }
}

/// Whether a batch of replies to a set request is accepted: there is at
/// least one, and every status byte is zero.
pub open spec fn replies_accepted(frames: Seq<RxFrameView>) -> bool {
    frames.len() > 0 && forall|i: int| 0 <= i < frames.len() ==> status_byte(#[trigger] frames[i]) == 0
}

/// A reliable request succeeds exactly when, in some attempt and before
/// that attempt's deadline, a look at the receive FIFO found an accepted
/// reply: the transaction was waiting when the event came.
pub proof fn succeeds_iff_reply_in_time(retry_count: u32, events: Seq<Event>)
    ensures
        after(started(retry_count), events).phase == Phase::Succeeded <==> exists|i: int|
            0 <= i < events.len() && events[i] == Event::ReplyAccepted && (#[trigger] after(
                started(retry_count),
                events.take(i),
            )).phase == Phase::Waiting,
    decreases events.len(),
{
    let t0 = started(retry_count);
    if events.len() > 0 {
        let prev = events.drop_last();
        let last = events.len() - 1;
        succeeds_iff_reply_in_time(retry_count, prev);
        assert(events.take(last) =~= prev);
        assert forall|i: int| 0 <= i < last implies events.take(i) == prev.take(i) by {
            assert(events.take(i) =~= prev.take(i));
        }
        if after(t0, prev).phase == Phase::Succeeded {
            let i = choose|i: int|
                0 <= i < prev.len() && prev[i] == Event::ReplyAccepted && (#[trigger] after(
                    t0,
                    prev.take(i),
                )).phase == Phase::Waiting;
            assert(events[i] == Event::ReplyAccepted && after(t0, events.take(i)).phase
                == Phase::Waiting);
        } else if after(t0, events).phase == Phase::Succeeded {
            assert(events[last] == Event::ReplyAccepted && after(t0, events.take(last)).phase
                == Phase::Waiting);
        } else {
            assert forall|i: int|
                0 <= i < events.len() && events[i] == Event::ReplyAccepted implies (#[trigger] after(
                t0,
                events.take(i),
            )).phase != Phase::Waiting by {
                if i < last {
                    assert(prev[i] == events[i]);
                    assert(events.take(i) == prev.take(i));
                }
            }
        }
    }
}

/// A reliable request that ends with a timeout has seen the deadline pass
/// in every one of its attempts: it ends so only from waiting, on a
/// deadline, with no attempt left.
pub proof fn timeout_only_after_last_deadline(t: Transaction, e: Event)
    requires
        t.phase != Phase::Failed(LinkError::Timeout),
        advanced(t, e).phase == Phase::Failed(LinkError::Timeout),
    ensures
        t.phase == Phase::Waiting,
        e == Event::DeadlineElapsed,
        t.attempts_left == 0,
{
}

impl Transaction {
    /// Starts a reliable request with `retry_count` attempts.
    pub fn begin(retry_count: u32) -> (t: Transaction)
        ensures
            t == started(retry_count),
    {
        if retry_count == 0 {
            Transaction { phase: Phase::Failed(LinkError::Timeout), attempts_left: 0 }
        } else {
            Transaction { phase: Phase::Sending, attempts_left: retry_count - 1 }
        }
    }

    /// What the caller is to do now.
    pub fn action(&self) -> (a: Action)
        ensures
            a == action_of(self.phase),
    {
        match self.phase {
            Phase::Sending => Action::Send,
            Phase::Waiting => Action::Poll,
            Phase::Succeeded => Action::Succeed,
            Phase::Failed(e) => Action::Fail(e),
        }
    }

    /// Takes in what the caller observed and says what to do next.
    pub fn next(&mut self, event: Event) -> (a: Action)
        ensures
            *final(self) == advanced(*old(self), event),
            a == action_of(final(self).phase),
    {
        match (self.phase, event) {
            (Phase::Sending, Event::Sent) => {
                self.phase = Phase::Waiting;
            },
            (Phase::Sending, Event::TransmitFailed) => {
                self.phase = Phase::Failed(LinkError::TransportFailure);
            },
            (Phase::Waiting, Event::ReplyAccepted) => {
                self.phase = Phase::Succeeded;
            },
            (Phase::Waiting, Event::DeadlineElapsed) => {
                if self.attempts_left > 0 {
                    self.phase = Phase::Sending;
                    self.attempts_left = self.attempts_left - 1;
                } else {
                    self.phase = Phase::Failed(LinkError::Timeout);
                }
            },
            _ => {},
        }
        self.action()
    }
}

/// Whether every status in a batch of results is zero.
pub fn all_zero(results: &Vec<RxData<u8>>) -> (ok: bool)
    ensures
        ok == forall|i: int| 0 <= i < results@.len() ==> (#[trigger] results@[i]).data == 0,
{
    let n: usize = results.len();
    let mut i: usize = 0;
    while i < n
        invariant
            i <= n,
            n == results@.len(),
            forall|k: int| 0 <= k < i ==> (#[trigger] results@[k]).data == 0,
        decreases n - i,
    {
        if results[i].data != 0 {
            return false;
        }
        i = i + 1;
    }
    true
}

impl CANInterface {
    /// One look for the reply to a set request sent to node `channel`:
    /// drains the results that came from that node and accepts them when
    /// there is at least one and every status byte is zero.
    pub fn poll_set_value_reply(&mut self, channel: u8) -> (accepted: bool)
        ensures
            accepted == replies_accepted(
                picked(
                    old(self).rx_state().complete,
                    port_marks(old(self).rx_state().complete, PORT_RESULT, Some(channel)),
                ),
            ),
            final(self).rx_state().complete == picked(
                old(self).rx_state().complete,
                inverted(port_marks(old(self).rx_state().complete, PORT_RESULT, Some(channel))),
            ),
            final(self).rx_state().incomplete == old(self).rx_state().incomplete,
            final(self).same_settings(*old(self)),
            old(self).wf() ==> final(self).wf(),
    {
        let ghost frames = picked(
            self.rx_state().complete,
            port_marks(self.rx_state().complete, PORT_RESULT, Some(channel)),
        );
        match self.get_result(Some(channel)) {
            Some(results) => {
                let ok = all_zero(&results);
                proof {
                    assert(results@ == status_data(frames));
                    assert(forall|i: int|
                        0 <= i < frames.len() ==> results@[i].data == status_byte(
                            #[trigger] frames[i],
                        ));
                }
                ok
            },
            None => false,
        }
    }
}

} // verus!
