//! Polling of I/O events: the event bit set, and the wait queue that parks
//! pollers until an event source wakes them all at once.

use vstd::prelude::*;

verus! {

/// `linux_raw_sys::general::POLLIN`, the Linux ABI's `POLLIN` bit (1).
#[verifier::external_body]
fn poll_in() -> (bit: u32)
    ensures
        bit == 1,
{
    linux_raw_sys::general::POLLIN
}

/// `linux_raw_sys::general::POLLPRI`, the Linux ABI's `POLLPRI` bit (2).
#[verifier::external_body]
fn poll_pri() -> (bit: u32)
    ensures
        bit == 2,
{
    linux_raw_sys::general::POLLPRI
}

/// `linux_raw_sys::general::POLLOUT`, the Linux ABI's `POLLOUT` bit (4).
#[verifier::external_body]
fn poll_out() -> (bit: u32)
    ensures
        bit == 4,
{
    linux_raw_sys::general::POLLOUT
}

/// `linux_raw_sys::general::POLLERR`, the Linux ABI's `POLLERR` bit (8).
#[verifier::external_body]
fn poll_err() -> (bit: u32)
    ensures
        bit == 8,
{
    linux_raw_sys::general::POLLERR
}

/// `linux_raw_sys::general::POLLHUP`, the Linux ABI's `POLLHUP` bit (16).
#[verifier::external_body]
fn poll_hup() -> (bit: u32)
    ensures
        bit == 16,
{
    linux_raw_sys::general::POLLHUP
}

/// `linux_raw_sys::general::POLLNVAL`, the invalid-request bit (32 on every architecture).
#[verifier::external_body]
fn poll_nval() -> (bit: u32)
    ensures
        bit == 32,
{
    linux_raw_sys::general::POLLNVAL
}

/// `linux_raw_sys::general::POLLRDNORM`, the normal-data-readable bit (64 on every architecture).
#[verifier::external_body]
fn poll_rdnorm() -> (bit: u32)
    ensures
        bit == 64,
{
    linux_raw_sys::general::POLLRDNORM
}

/// `linux_raw_sys::general::POLLRDBAND`, the priority-band-readable bit (128 on every architecture).
#[verifier::external_body]
fn poll_rdband() -> (bit: u32)
    ensures
        bit == 128,
{
    linux_raw_sys::general::POLLRDBAND
}

/// `linux_raw_sys::general::POLLWRNORM`, the normal-data-writable bit: 256, or 4 on the MIPS ABIs (SPARC and
/// m68k do not define it).
#[verifier::external_body]
fn poll_wrnorm() -> (bit: u32)
    ensures
        bit == 256 || bit == 4,
{
    linux_raw_sys::general::POLLWRNORM
}

/// `linux_raw_sys::general::POLLWRBAND`, the priority-band-writable bit: 512, or 256 on the MIPS, SPARC and m68k ABIs.
#[verifier::external_body]
fn poll_wrband() -> (bit: u32)
    ensures
        bit == 512 || bit == 256,
{
    linux_raw_sys::general::POLLWRBAND
}

/// `linux_raw_sys::general::POLLMSG`, the message bit: 1024, or 512 on the SPARC ABIs.
#[verifier::external_body]
fn poll_msg() -> (bit: u32)
    ensures
        bit == 1024 || bit == 512,
{
    linux_raw_sys::general::POLLMSG
}

/// `linux_raw_sys::general::POLLREMOVE`, the remove bit: 4096, or 1024 on the SPARC ABIs.
#[verifier::external_body]
fn poll_remove() -> (bit: u32)
    ensures
        bit == 4096 || bit == 1024,
{
    linux_raw_sys::general::POLLREMOVE
}

/// `linux_raw_sys::general::POLLRDHUP`, the peer-closed bit: 8192, or 2048 on the SPARC ABIs.
#[verifier::external_body]
fn poll_rdhup() -> (bit: u32)
    ensures
        bit == 8192 || bit == 2048,
{
    linux_raw_sys::general::POLLRDHUP
}

/// A set of I/O events, as bits of the Linux `poll` ABI.
#[derive(Clone, Copy, PartialEq, Eq, Debug, Structural)]
pub struct IoEvents {
    bits: u32,
}

impl IoEvents {
    /// The bits of the set.
    pub closed spec fn spec_bits(self) -> u32 {
        self.bits
    }

    /// The set of the given bits.
    pub fn from_bits(bits: u32) -> (e: Self)
        ensures
            e.spec_bits() == bits,
    {
        IoEvents { bits }
    }

    /// The bits of the set.
    pub fn bits(&self) -> (b: u32)
        ensures
            b == self.spec_bits(),
    {
        self.bits
    }

    /// No event.
    pub fn empty() -> (e: Self)
        ensures
            e.spec_bits() == 0,
    {
        IoEvents { bits: 0 }
    }

    /// Data is available for reading.
    pub fn readable() -> (e: Self)
        ensures
            e.spec_bits() == 1,
    {
        IoEvents { bits: poll_in() }
    }

    /// Urgent data is available for reading.
    pub fn priority() -> (e: Self)
        ensures
            e.spec_bits() == 2,
    {
        IoEvents { bits: poll_pri() }
    }

    /// Writing would not block.
    pub fn writable() -> (e: Self)
        ensures
            e.spec_bits() == 4,
    {
        IoEvents { bits: poll_out() }
    }

    /// An error condition.
    pub fn error() -> (e: Self)
        ensures
            e.spec_bits() == 8,
    {
        IoEvents { bits: poll_err() }
    }

    /// The peer hung up.
    pub fn hang_up() -> (e: Self)
        ensures
            e.spec_bits() == 16,
    {
        IoEvents { bits: poll_hup() }
    }

    /// An invalid request.
    pub fn invalid() -> (e: Self)
        ensures
            e.spec_bits() == 32,
    {
        IoEvents { bits: poll_nval() }
    }

    /// Normal data is available for reading.
    pub fn read_normal() -> (e: Self)
        ensures
            e.spec_bits() == 64,
    {
        IoEvents { bits: poll_rdnorm() }
    }

    /// Priority-band data is available for reading.
    pub fn read_band() -> (e: Self)
        ensures
            e.spec_bits() == 128,
    {
        IoEvents { bits: poll_rdband() }
    }

    /// Normal data can be written.
    pub fn write_normal() -> (e: Self)
        ensures
            e.spec_bits() == 256 || e.spec_bits() == 4,
    {
        IoEvents { bits: poll_wrnorm() }
    }

    /// Priority-band data can be written.
    pub fn write_band() -> (e: Self)
        ensures
            e.spec_bits() == 512 || e.spec_bits() == 256,
    {
        IoEvents { bits: poll_wrband() }
    }

    /// A message is available.
    pub fn message() -> (e: Self)
        ensures
            e.spec_bits() == 1024 || e.spec_bits() == 512,
    {
        IoEvents { bits: poll_msg() }
    }

    /// The file is being removed.
    pub fn remove() -> (e: Self)
        ensures
            e.spec_bits() == 4096 || e.spec_bits() == 1024,
    {
        IoEvents { bits: poll_remove() }
    }

    /// The stream peer closed, or shut down its writing half.
    pub fn read_hang_up() -> (e: Self)
        ensures
            e.spec_bits() == 8192 || e.spec_bits() == 2048,
    {
        IoEvents { bits: poll_rdhup() }
    }

    /// The events that are always polled, asked for or not: error and hang-up.
    pub fn always_poll() -> (e: Self)
        ensures
            e.spec_bits() == 8 | 16,
    {
        IoEvents { bits: poll_err() | poll_hup() }
    }

    /// Whether every event of `other` is in this set.
    pub fn contains(&self, other: IoEvents) -> (b: bool)
        ensures
            b == (self.spec_bits() & other.spec_bits() == other.spec_bits()),
    {
        self.bits & other.bits == other.bits
    }

    /// Whether this set and `other` share an event.
    pub fn intersects(&self, other: IoEvents) -> (b: bool)
        ensures
            b == (self.spec_bits() & other.spec_bits() != 0),
    {
        self.bits & other.bits != 0
    }

    /// The events of either set.
    pub fn union(&self, other: IoEvents) -> (e: IoEvents)
        ensures
            e.spec_bits() == self.spec_bits() | other.spec_bits(),
    {
        IoEvents { bits: self.bits | other.bits }
    }
}

/// A set contains every set below it in a union, and the union of a set
/// with itself is the set.
pub proof fn lemma_union_contains(a: u32, b: u32)
    ensures
        (a | b) & a == a,
        (a | b) & b == b,
        a | a == a,
{
    assert((a | b) & a == a) by (bit_vector);
    assert((a | b) & b == b) by (bit_vector);
    assert(a | a == a) by (bit_vector);
}

/// A blocked poller that an event source can wake.
pub trait PollWaiter {
    /// Wakes the blocked task this waiter stands for.
    fn wake(&self);
}

/// The context of one blocking poll attempt: the waiter to park.
pub struct PollTable<W> {
    waiter: W,
}

impl<W> PollTable<W> {
    /// The waiter this table parks.
    pub closed spec fn waiter(&self) -> W {
        self.waiter
    }

    /// A poll table for `waiter`.
    pub fn new(waiter: W) -> (t: Self)
        ensures
            t.waiter() == waiter,
    {
        PollTable { waiter }
    }
}

/// The waiters parked on one event source, in arrival order.
pub struct PollWaitQueue<W> {
    waiters: Vec<W>,
}

impl<W: PollWaiter> PollWaitQueue<W> {
    /// The parked waiters, in arrival order.
    pub closed spec fn view(&self) -> Seq<W> {
        self.waiters@
    }

    /// An empty queue.
    pub fn new() -> (q: Self)
        ensures
            q@ == Seq::<W>::empty(),
    {
        PollWaitQueue { waiters: Vec::new() }
    }

    /// Parks `waiter` until the next wake-up.
    pub fn register(&mut self, waiter: W)
        ensures
            final(self)@ == old(self)@.push(waiter),
    {
        self.waiters.push(waiter);
    }

    /// Parks a clone of the poll table's waiter until the next wake-up.
    pub fn wait(&mut self, table: &PollTable<W>)
        where
            W: Clone,
        ensures
            final(self)@.len() == old(self)@.len() + 1,
            final(self)@.take(old(self)@.len() as int) == old(self)@,
            vstd::pervasive::cloned(table.waiter(), final(self)@.last()),
    {
        let w = table.waiter.clone();
        self.waiters.push(w);
        assert(self@.take(old(self)@.len() as int) =~= old(self)@);
    }

    /// Empties the queue and hands back the parked waiters, in arrival
    /// order: the waiters that a wake-up is for.
    pub fn take_waiters(&mut self) -> (w: Vec<W>)
        ensures
            w@ == old(self)@,
            final(self)@ == Seq::<W>::empty(),
    {
        let mut entries: Vec<W> = Vec::new();
        std::mem::swap(&mut entries, &mut self.waiters);
        entries
    }

    /// Wakes every parked waiter, in arrival order, and empties the queue;
    /// returns how many were woken. The waiters woken are those that
    /// `take_waiters` hands back.
    pub fn wake(&mut self) -> (n: usize)
        ensures
            n == old(self)@.len(),
            final(self)@ == Seq::<W>::empty(),
    {
        if self.waiters.len() == 0 {
            return 0;
        }
        let entries = self.take_waiters();
        let len = entries.len();
        let mut i: usize = 0;
        while i < len
            invariant
                i <= len == entries@.len(),
            decreases len - i,
        {
            entries[i].wake();
            i = i + 1;
        }
        len
    }
}

} // verus!
