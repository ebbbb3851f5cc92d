use std::cell::Cell;

use tgoskits::poll::{IoEvents, PollTable, PollWaitQueue, PollWaiter};

#[derive(Clone)]
struct Counter<'a>(&'a Cell<usize>);

impl PollWaiter for Counter<'_> {
    fn wake(&self) {
        self.0.set(self.0.get() + 1);
    }
}

#[test]
fn event_bits_follow_linux_abi() {
    assert_eq!(IoEvents::readable().bits(), 1);
    assert_eq!(IoEvents::priority().bits(), 2);
    assert_eq!(IoEvents::writable().bits(), 4);
    assert_eq!(IoEvents::always_poll().bits(), 8 | 16);
    assert_eq!(IoEvents::empty().bits(), 0);
}

#[test]
fn contains_and_union() {
    let rw = IoEvents::readable().union(IoEvents::writable());
    assert!(rw.contains(IoEvents::readable()));
    assert!(rw.contains(IoEvents::writable()));
    assert!(!rw.contains(IoEvents::priority()));
    assert!(rw.contains(IoEvents::empty()));
    assert!(rw.intersects(IoEvents::from_bits(5)));
    assert!(!rw.intersects(IoEvents::always_poll()));
}

#[test]
fn wake_wakes_everyone_once() {
    let hits = Cell::new(0);
    let mut q = PollWaitQueue::new();
    assert_eq!(q.wake(), 0);
    q.register(Counter(&hits));
    let table = PollTable::new(Counter(&hits));
    q.wait(&table);
    q.wait(&table);
    assert_eq!(q.wake(), 3);
    assert_eq!(hits.get(), 3);
    assert_eq!(q.wake(), 0);
    assert_eq!(hits.get(), 3);
}

#[test]
fn remaining_event_bits_follow_linux_abi() {
    assert_eq!(IoEvents::error().bits(), linux_raw_sys::general::POLLERR);
    assert_eq!(IoEvents::hang_up().bits(), linux_raw_sys::general::POLLHUP);
    assert_eq!(IoEvents::invalid().bits(), 32);
    assert_eq!(IoEvents::read_normal().bits(), 64);
    assert_eq!(IoEvents::read_band().bits(), 128);
    assert_eq!(IoEvents::write_normal().bits(), linux_raw_sys::general::POLLWRNORM);
    assert_eq!(IoEvents::write_band().bits(), linux_raw_sys::general::POLLWRBAND);
    assert_eq!(IoEvents::message().bits(), linux_raw_sys::general::POLLMSG);
    assert_eq!(IoEvents::remove().bits(), linux_raw_sys::general::POLLREMOVE);
    assert_eq!(IoEvents::read_hang_up().bits(), linux_raw_sys::general::POLLRDHUP);
    assert_eq!(
        IoEvents::error().union(IoEvents::hang_up()).bits(),
        IoEvents::always_poll().bits()
    );
}

#[derive(Clone, Debug, PartialEq)]
struct Tag(u32);

impl PollWaiter for Tag {
    fn wake(&self) {}
}

#[test]
fn take_waiters_hands_back_arrival_order() {
    let mut q = PollWaitQueue::new();
    q.register(Tag(3));
    q.register(Tag(1));
    q.wait(&PollTable::new(Tag(2)));
    assert_eq!(q.take_waiters(), vec![Tag(3), Tag(1), Tag(2)]);
    assert_eq!(q.take_waiters(), vec![]);
    assert_eq!(q.wake(), 0);
}
