use std::sync::mpsc::channel;
use typed_protocols::ring_a::{RecvAState, RingA, SendA, SendAState};
use typed_protocols::ring_b::{RecvB, RecvBState, RingB, SendBState};

#[test]
fn value_travels_round_the_ring() {
    let (a_sender, b_receiver) = channel::<i32>();
    let (b_sender, c_receiver) = channel::<i32>();
    let (c_sender, a_receiver) = channel::<i32>();
    let a = RingA::<SendA>::new(7, a_sender, a_receiver);
    let b = RingB::<RecvB>::new(b_sender, b_receiver);
    let c = RingB::<RecvB>::new(c_sender, c_receiver);
    assert_eq!(a.get_value(), 7);
    let a = a.send().0.expect("b listens");
    let b = b.recv().0.expect("a sent");
    assert_eq!(b.get_value(), 7);
    let b = b.send().0.expect("c listens");
    let c = c.recv().0.expect("b sent");
    assert_eq!(c.get_value(), 7);
    let c = c.send().0.expect("a listens");
    let a = a.recv().0.expect("c sent");
    assert_eq!(a.get_value(), 7);
    a.end();
    b.end();
    c.end();
}

#[test]
fn send_to_a_gone_member_fails() {
    let (a_sender, b_receiver) = channel::<i32>();
    let (_c_sender, a_receiver) = channel::<i32>();
    drop(b_receiver);
    let a = RingA::<SendA>::new(3, a_sender, a_receiver);
    assert!(a.send().0.is_none());
}

#[test]
fn receive_from_a_gone_member_fails() {
    let (b_sender, _c_receiver) = channel::<i32>();
    let (a_sender, b_receiver) = channel::<i32>();
    drop(a_sender);
    let b = RingB::<RecvB>::new(b_sender, b_receiver);
    assert!(b.recv().0.is_none());
}

#[test]
fn member_after_delivery_waits_and_after_failure_is_gone() {
    let (a_sender, _b_receiver) = channel::<i32>();
    let (_c_sender, a_receiver) = channel::<i32>();
    let a = RingA::<SendA>::new(5, a_sender, a_receiver);
    assert!(a.after_send(false).is_none());
    let (b_sender, _c_receiver) = channel::<i32>();
    let (_a_sender, b_receiver) = channel::<i32>();
    let b = RingB::<RecvB>::new(b_sender, b_receiver).after_recv(Some(2)).expect("arrived");
    assert_eq!(b.get_value(), 2);
    let b = b.after_send(true).expect("delivered");
    let b = b.after_recv(Some(11)).expect("arrived");
    assert_eq!(b.get_value(), 11);
}

#[test]
fn member_after_nothing_arrived_is_gone() {
    let (b_sender, _c_receiver) = channel::<i32>();
    let (_a_sender, b_receiver) = channel::<i32>();
    let b = RingB::<RecvB>::new(b_sender, b_receiver);
    assert!(b.after_recv(None).is_none());
    let (a_sender, _x) = channel::<i32>();
    let (_y, a_receiver) = channel::<i32>();
    let a = RingA::<SendA>::new(4, a_sender, a_receiver).after_send(true).expect("delivered");
    let a = a.after_recv(Some(9)).expect("arrived");
    assert_eq!(a.get_value(), 9);
}
