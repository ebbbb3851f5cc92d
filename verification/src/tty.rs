//! The kernel console behind the default TTY: output passes through a small
//! escape-sequence filter that answers cursor-position queries itself, and
//! those answers are handed back on the next console read.

use std::collections::VecDeque;

use vstd::prelude::*;

verus! {

/// The byte that starts an escape sequence.
pub const ESC: u8 = 0x1b;

/// Where the console output filter stands inside an escape sequence.
#[derive(Clone, Copy)]
pub enum ConsoleEscapeState {
    /// Outside any escape sequence.
    Normal,
    /// Right after an `ESC` byte.
    Esc,
    /// Inside a control sequence (`ESC [`), with the parameter bytes seen so
    /// far; at most eight are kept.
    Csi { len: usize, buf: [u8; 8] },
}

/// The filter state as the specifications see it: 0 outside a sequence, 1
/// after `ESC`, 2 inside a control sequence, with its kept parameter bytes.
pub type EscapeView = (int, Seq<u8>);

pub open spec fn escape_view(s: ConsoleEscapeState) -> EscapeView {
    match s {
        ConsoleEscapeState::Normal => (0, Seq::empty()),
        ConsoleEscapeState::Esc => (1, Seq::empty()),
        ConsoleEscapeState::Csi { len, buf } => (2, buf@.take(len as int)),
    }
}

/// The reply to a cursor-position query (`ESC [ 6 n`): row 1, column 1.
pub open spec fn cursor_report() -> Seq<u8> {
    seq![0x1bu8, 0x5bu8, 0x31u8, 0x3bu8, 0x31u8, 0x52u8]
}

/// One byte through the filter: the next state, the bytes passed on to the
/// console, and the bytes queued as a reply.
pub open spec fn escape_step(v: EscapeView, b: u8) -> (EscapeView, Seq<u8>, Seq<u8>) {
    if v.0 == 0 {
        if b == ESC {
            ((1, Seq::empty()), Seq::empty(), Seq::empty())
        } else {
            ((0, Seq::empty()), seq![b], Seq::empty())
        }
    } else if v.0 == 1 {
        if b == 0x5b {
            ((2, Seq::empty()), Seq::empty(), Seq::empty())
        } else {
            ((0, Seq::empty()), seq![ESC, b], Seq::empty())
        }
    } else if 0x40 <= b <= 0x7e {
        if b == 0x6e && v.1 == seq![0x36u8] {
            ((0, Seq::empty()), Seq::empty(), cursor_report())
        } else {
            ((0, Seq::empty()), seq![ESC, 0x5bu8] + v.1 + seq![b], Seq::empty())
        }
    } else {
        let params = if v.1.len() < 8 {
            v.1.push(b)
        } else {
            v.1
        };
        ((2, params), Seq::empty(), Seq::empty())
    }
}

/// A whole byte sequence through the filter, starting in state `v`.
pub open spec fn escape_run(v: EscapeView, bytes: Seq<u8>) -> (EscapeView, Seq<u8>, Seq<u8>)
    decreases bytes.len(),
{
    if bytes.len() == 0 {
        (v, Seq::empty(), Seq::empty())
    } else {
        let (s1, o1, r1) = escape_run(v, bytes.drop_last());
        let (s2, o2, r2) = escape_step(s1, bytes.last());
        (s2, o1 + o2, r1 + r2)
    }
}

/// The console's shared state: the output filter and the queued replies.
pub struct ConsoleState {
    escape: ConsoleEscapeState,
    replies: VecDeque<u8>,
}

impl ConsoleState {
    /// The kept parameter bytes never exceed the eight-byte buffer.
    pub closed spec fn wf(&self) -> bool {
        match self.escape {
            ConsoleEscapeState::Csi { len, buf } => len <= 8,
            _ => true,
        }
    }

    /// The filter state.
    pub closed spec fn escape(&self) -> EscapeView {
        escape_view(self.escape)
    }

    /// The reply bytes waiting to be read.
    pub closed spec fn replies(&self) -> Seq<u8> {
        self.replies@
    }

    /// Outside any escape sequence, with no reply queued.
    pub fn new() -> (s: Self)
        ensures
            s.wf(),
            s.escape() == (0int, Seq::<u8>::empty()),
            s.replies() == Seq::<u8>::empty(),
    {
        ConsoleState { escape: ConsoleEscapeState::Normal, replies: VecDeque::new() }
    }
}

/// The kernel console, reader and writer of the default TTY.
#[derive(Clone, Copy)]
pub struct Console;

impl Console {
    /// Moves queued reply bytes into `buf`, as many as fit, and says how many;
    /// the caller fills the rest of `buf` from the console device.
    pub fn read(&mut self, state: &mut ConsoleState, buf: &mut [u8]) -> (n: usize)
        requires
            old(state).wf(),
        ensures
            final(state).wf(),
            n == if old(buf)@.len() < old(state).replies().len() {
                old(buf)@.len()
            } else {
                old(state).replies().len()
            },
            final(buf)@ == old(state).replies().take(n as int) + old(buf)@.skip(n as int),
            final(state).replies() == old(state).replies().skip(n as int),
            final(state).escape() == old(state).escape(),
    {
        let ghost q = state.replies@;
        let ghost b0 = buf@;
        let mut read: usize = 0;
        while read < buf.len()
            invariant
                read <= buf@.len() == b0.len(),
                read <= q.len(),
                state.replies@ == q.skip(read as int),
                state.escape == old(state).escape,
                buf@ == q.take(read as int) + b0.skip(read as int),
            ensures
                read == b0.len() || read == q.len(),
                read <= b0.len(),
                read <= q.len(),
                state.replies@ == q.skip(read as int),
                state.escape == old(state).escape,
                buf@ == q.take(read as int) + b0.skip(read as int),
            decreases buf@.len() - read,
        {
            let byte = match state.replies.pop_front() {
                Some(b) => b,
                None => {
                    break;
                },
            };
            proof {
                assert(q.skip(read as int)[0] == q[read as int]);
                assert(q.skip(read as int).drop_first() =~= q.skip(read + 1));
            }
            buf[read] = byte;
            read = read + 1;
            proof {
                assert(buf@ =~= q.take(read as int) + b0.skip(read as int));
            }
        }
        read
    }

    /// Runs `buf` through the escape filter and returns the bytes to send to
    /// the console device. A cursor-position query is answered by queueing
    /// `ESC [ 1 ; 1 R` instead of being sent; every other sequence is passed
    /// on whole, with at most eight parameter bytes.
    pub fn write(&self, state: &mut ConsoleState, buf: &[u8]) -> (out: Vec<u8>)
        requires
            old(state).wf(),
        ensures
            final(state).wf(),
            ({
                let (s, o, r) = escape_run(old(state).escape(), buf@);
                &&& final(state).escape() == s
                &&& out@ == o
                &&& final(state).replies() == old(state).replies() + r
            }),
    {
        let ghost v0 = state.escape();
        let ghost q0 = state.replies@;
        let mut out: Vec<u8> = Vec::new();
        let mut i: usize = 0;
        let mut cur = state.escape;
        while i < buf.len()
            invariant
                i <= buf@.len(),
                state.escape() == v0,
                state.replies@ == q0 + escape_run(v0, buf@.take(i as int)).2,
                escape_view(cur) == escape_run(v0, buf@.take(i as int)).0,
                out@ == escape_run(v0, buf@.take(i as int)).1,
                match cur {
                    ConsoleEscapeState::Csi { len, buf } => len <= 8,
                    _ => true,
                },
            decreases buf@.len() - i,
        {
            let byte = buf[i];
            let ghost before = escape_run(v0, buf@.take(i as int));
            let ghost step = escape_step(before.0, byte);
            proof {
                assert(buf@.take(i + 1).drop_last() =~= buf@.take(i as int));
                assert(buf@.take(i + 1).last() == byte);
            }
            let ghost out0 = out@;
            let ghost rep0 = state.replies@;
            match cur {
                ConsoleEscapeState::Normal => {
                    if byte == ESC {
                        cur = ConsoleEscapeState::Esc;
                    } else {
                        out.push(byte);
                    }
                },
                ConsoleEscapeState::Esc => {
                    if byte == 0x5b {
                        cur = ConsoleEscapeState::Csi { len: 0, buf: [0; 8] };
                        proof {
                            assert(escape_view(cur).1 =~= Seq::<u8>::empty());
                        }
                    } else {
                        out.push(ESC);
                        out.push(byte);
                        cur = ConsoleEscapeState::Normal;
                    }
                },
                ConsoleEscapeState::Csi { len, buf: params } => {
                    let mut len = len;
                    let mut params = params;
                    if 0x40 <= byte && byte <= 0x7e {
                        if byte == 0x6e && len == 1 && params[0] == 0x36 {
                            proof {
                                assert(before.0.1 =~= seq![0x36u8]);
                            }
                            state.replies.push_back(ESC);
                            state.replies.push_back(0x5b);
                            state.replies.push_back(0x31);
                            state.replies.push_back(0x3b);
                            state.replies.push_back(0x31);
                            state.replies.push_back(0x52);
                        } else {
                            proof {
                                if before.0.1 == seq![0x36u8] {
                                    assert(before.0.1[0] == params@[0]);
                                }
                            }
                            out.push(ESC);
                            out.push(0x5b);
                            let mut k: usize = 0;
                            while k < len
                                invariant
                                    k <= len <= 8,
                                    out@ == out0 + seq![ESC, 0x5bu8] + params@.take(k as int),
                                decreases len - k,
                            {
                                out.push(params[k]);
                                k = k + 1;
                                proof {
                                    assert(out@ =~= out0 + seq![ESC, 0x5bu8] + params@.take(
                                        k as int,
                                    ));
                                }
                            }
                            out.push(byte);
                        }
                        cur = ConsoleEscapeState::Normal;
                    } else {
                        if len < 8 {
                            params[len] = byte;
                            len = len + 1;
                            proof {
                                assert(params@.take(len as int) =~= before.0.1.push(byte));
                            }
                        }
                        cur = ConsoleEscapeState::Csi { len, buf: params };
                    }
                },
            }
            proof {
                assert(out@ =~= out0 + step.1);
                assert(state.replies@ =~= rep0 + step.2);
                assert(escape_view(cur).1 =~= step.0.1);
            }
            i = i + 1;
        }
        proof {
            assert(buf@.take(i as int) =~= buf@);
        }
        state.escape = cur;
        out
    }
}

/// Bytes that hold no `ESC` pass through the filter unchanged, and the
/// filter stays outside any sequence.
pub proof fn lemma_plain_text_passes(bytes: Seq<u8>)
    requires
        forall|i: int| 0 <= i < bytes.len() ==> bytes[i] != ESC,
    ensures
        escape_run((0, Seq::empty()), bytes) == ((0int, Seq::<u8>::empty()), bytes, Seq::<u8>::empty()),
    decreases bytes.len(),
{
    if bytes.len() > 0 {
        lemma_plain_text_passes(bytes.drop_last());
        assert(bytes.drop_last() + seq![bytes.last()] =~= bytes);
    }
}

/// Filtering two pieces one after the other is filtering them joined: the
/// state carries the sequence across the boundary.
pub proof fn lemma_escape_run_append(v: EscapeView, a: Seq<u8>, b: Seq<u8>)
    ensures
        ({
            let (s1, o1, r1) = escape_run(v, a);
            let (s2, o2, r2) = escape_run(s1, b);
            escape_run(v, a + b) == (s2, o1 + o2, r1 + r2)
        }),
    decreases b.len(),
{
    if b.len() == 0 {
        assert(a + b =~= a);
        let (s1, o1, r1) = escape_run(v, a);
        assert(o1 + Seq::<u8>::empty() =~= o1);
        assert(r1 + Seq::<u8>::empty() =~= r1);
    } else {
        lemma_escape_run_append(v, a, b.drop_last());
        assert((a + b).drop_last() =~= a + b.drop_last());
        assert((a + b).last() == b.last());
        let (s1, o1, r1) = escape_run(v, a);
        let (s2, o2, r2) = escape_run(s1, b.drop_last());
        let (s3, o3, r3) = escape_step(s2, b.last());
        assert(o1 + o2 + o3 =~= o1 + (o2 + o3));
        assert(r1 + r2 + r3 =~= r1 + (r2 + r3));
    }
}

} // verus!
