use std::sync::mpsc::Receiver;
use std::sync::mpsc::Sender;
use vstd::prelude::*;

use crate::sealed::Sealed;

use crate::channel::receive_value;
use crate::channel::Handed;
use crate::channel::Received;
use crate::channel::send_value;

verus! {

/// Marks the states of the first member of a ring.
pub trait RingAState: Sealed {}

/// The member of a ring that holds the first value: it sends on `send` and
/// receives on `receiver`.
pub struct RingA<State: RingAState> {
    pub(crate) send: Sender<i32>,
    pub(crate) receiver: Receiver<i32>,
    pub state: State,
}

/// The member holds a value to pass on.
pub struct SendA(pub i32);

/// The member waits for a value.
pub struct RecvA;

impl Sealed for SendA {}

impl Sealed for RecvA {}

impl RingAState for SendA {}

impl RingAState for RecvA {}

impl<State: RingAState> RingA<State> {
    /// The end of the channel this member sends on.
    pub closed spec fn sender_end(&self) -> Sender<i32> {
        self.send
    }

    /// The end of the channel this member receives on.
    pub closed spec fn receiver_end(&self) -> Receiver<i32> {
        self.receiver
    }
}

impl RingA<SendA> {
    /// The value the member holds.
    pub closed spec fn held(&self) -> i32 {
        self.state.0
    }

    /// The member after it handed its value to the channel: waiting, with the
    /// same channels, where `delivered` says the value went through; `None`
    /// where the next member was gone.
    pub fn after_send(self, delivered: bool) -> (r: Option<RingA<RecvA>>)
        ensures
            match r {
                Some(next) => delivered && next.sender_end() == self.sender_end() && next.receiver_end() == self.receiver_end(),
                None => !delivered,
            },
    {
        if delivered {
            Some(RingA { send: self.send, receiver: self.receiver, state: RecvA })
        } else {
            None
        }
    }
}

impl RingA<RecvA> {
    /// The member after the channel gave `arrived`: holding the value that
    /// arrived, with the same channels; `None` where nothing arrived because
    /// the previous member was gone.
    pub fn after_recv(self, arrived: Option<i32>) -> (r: Option<RingA<SendA>>)
        ensures
            match arrived {
                Some(value) => r matches Some(next) && next.held() == value && next.sender_end()
                    == self.sender_end() && next.receiver_end() == self.receiver_end(),
                None => r is None,
            },
    {
        match arrived {
            Some(value) => Some(RingA { send: self.send, receiver: self.receiver, state: SendA(value) }),
            None => None,
        }
    }
}

/// Transitions out of `SendA`.
pub trait SendAState: Sized {
    fn new(value: i32, send: Sender<i32>, receiver: Receiver<i32>) -> Self;

    fn get_value(&self) -> i32;

    fn send(self) -> (Option<RingA<RecvA>>, Handed);

    fn end(self);
}

/// Transitions out of `RecvA`.
pub trait RecvAState: Sized {
    fn recv(self) -> (Option<RingA<SendA>>, Received);
}

impl SendAState for RingA<SendA> {
    /// A member holding `value`, with the two ends of its channels.
    fn new(value: i32, send: Sender<i32>, receiver: Receiver<i32>) -> (r: Self)
        ensures
            r.held() == value,
            r.sender_end() == send,
            r.receiver_end() == receiver,
    {
        RingA { send, receiver, state: SendA(value) }
    }

    /// The value held.
    fn get_value(&self) -> (v: i32)
        ensures
            v == self.held(),
    {
        self.state.0
    }

    /// Sends the value held on to the next member, then waits; `None` where
    /// the next member is gone. The second part of the result records the
    /// member's own sending end, the value handed to it (the value held) and
    /// whether the channel took it; the member waits exactly where it did.
    fn send(self) -> (r: (Option<RingA<RecvA>>, Handed))
        ensures
            r.1.to() == self.sender_end(),
            r.1.value() == self.held(),
            r.0 is Some <==> r.1.delivered(),
            match r.0 {
                Some(next) => next.sender_end() == self.sender_end() && next.receiver_end() == self.receiver_end(),
                None => true,
            },
    {
        let (outcome, handed) = send_value(&self.send, self.state.0);
        let delivered = outcome.is_ok();
        (self.after_send(delivered), handed)
    }

    /// Leaves the ring.
    fn end(self) {
    }
}

impl RecvAState for RingA<RecvA> {
    /// Waits for a value from the previous member on the member's own
    /// receiving end and holds what arrived; `None` where the previous member
    /// is gone. The second part of the result records the end read and what
    /// arrived there.
    fn recv(self) -> (r: (Option<RingA<SendA>>, Received))
        ensures
            r.1.from() == self.receiver_end(),
            r.0 is Some <==> r.1.value() is Some,
            match r.0 {
                Some(next) => {
                    &&& next.held() == r.1.value()->0
                    &&& next.sender_end() == self.sender_end()
                    &&& next.receiver_end() == self.receiver_end()
                },
                None => true,
            },
    {
        let (arrived, received) = receive_value(&self.receiver);
        (self.after_recv(arrived), received)
    }
}

} // verus!
