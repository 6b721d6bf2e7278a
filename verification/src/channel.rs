use vstd::prelude::*;

verus! {

/// The sending end of a channel, `std::sync::mpsc::Sender`; its contents are
/// not seen by the contracts.
#[verifier::external_type_specification]
#[verifier::external_body]
#[verifier::reject_recursive_types(T)]
pub struct ExSender<T>(std::sync::mpsc::Sender<T>);

/// The receiving end of a channel, `std::sync::mpsc::Receiver`; its contents
/// are not seen by the contracts.
#[verifier::external_type_specification]
#[verifier::external_body]
#[verifier::reject_recursive_types(T)]
pub struct ExReceiver<T>(std::sync::mpsc::Receiver<T>);

/// The record of a value handed to a channel. Only `send_value` makes one,
/// so a record always names the sending end used, the value that was handed
/// over and whether the channel took it.
pub struct Handed {
    to: Ghost<std::sync::mpsc::Sender<i32>>,
    value: Ghost<i32>,
    delivered: Ghost<bool>,
}

impl Handed {
    /// The sending end the value was handed to.
    pub closed spec fn to(&self) -> std::sync::mpsc::Sender<i32> {
        self.to@
    }

    /// The value that was handed to the channel.
    pub closed spec fn value(&self) -> i32 {
        self.value@
    }

    /// Whether the channel took the value.
    pub closed spec fn delivered(&self) -> bool {
        self.delivered@
    }
}

/// `Sender::send`: hands `value` to the channel, and gives with the outcome
/// the record of the value handed. It fails only where the receiving end is
/// gone, and then hands the value back; which of the two happens depends on
/// the other end, which no clause states.
#[verifier::external_body]
pub(crate) fn send_value(sender: &std::sync::mpsc::Sender<i32>, value: i32) -> (r: (
    Result<(), i32>,
    Handed,
))
    ensures
        r.1.to() == *sender,
        r.1.value() == value,
        r.1.delivered() == r.0 is Ok,
        match r.0 {
            Ok(()) => true,
            Err(back) => back == value,
        },
{
    let outcome = sender.send(value).map_err(|e| e.0);
    let delivered = outcome.is_ok();
    (outcome, Handed { to: Ghost(*sender), value: Ghost(value), delivered: Ghost(delivered) })
}

/// The record of what a channel gave. Only `receive_value` makes one, so a
/// record always names the receiving end read and what arrived there.
pub struct Received {
    from: Ghost<std::sync::mpsc::Receiver<i32>>,
    value: Ghost<Option<i32>>,
}

impl Received {
    /// The receiving end that was read.
    pub closed spec fn from(&self) -> std::sync::mpsc::Receiver<i32> {
        self.from@
    }

    /// What arrived: the value, or `None` where every sending end was gone.
    pub closed spec fn value(&self) -> Option<i32> {
        self.value@
    }
}

/// `Receiver::recv`: waits for the next value on the channel; `None` where
/// every sending end is gone and the channel is empty. The record names the
/// end read and what arrived; which value arrives comes from another thread,
/// so nothing more is stated of it.
#[verifier::external_body]
pub(crate) fn receive_value(receiver: &std::sync::mpsc::Receiver<i32>) -> (r: (
    Option<i32>,
    Received,
))
    ensures
        r.1.from() == *receiver,
        r.1.value() == r.0,
{
    let arrived = receiver.recv().ok();
    (arrived, Received { from: Ghost(*receiver), value: Ghost(arrived) })
}

} // verus!
