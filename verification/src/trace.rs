//! The tracing files of the debug filesystem: `trace_pipe`, `trace` and
//! `saved_cmdlines` hand out whole formatted records, as many as fit in the
//! reader's buffer, and the command-line cache names each process by its
//! executable.

use std::collections::VecDeque;

use vstd::prelude::*;

use crate::text::{chars_of, find_char, find_from, string_from_chars};

verus! {

/// How many records from the front of `records` fit, one after another,
/// into `cap` bytes; the first record that does not fit stops the count.
pub open spec fn fit_count(records: Seq<Seq<u8>>, cap: int) -> nat
    decreases records.len(),
{
    if records.len() == 0 || records[0].len() > cap {
        0
    } else {
        1 + fit_count(records.drop_first(), cap - records[0].len())
    }
}

/// The records of `records`, joined.
pub open spec fn joined(records: Seq<Seq<u8>>) -> Seq<u8>
    decreases records.len(),
{
    if records.len() == 0 {
        Seq::empty()
    } else {
        joined(records.drop_last()) + records.last()
    }
}

/// A queue of formatted trace records, oldest first.
pub struct RecordQueue {
    records: VecDeque<Vec<u8>>,
}

impl RecordQueue {
    /// The records, oldest first.
    pub closed spec fn view(&self) -> Seq<Seq<u8>> {
        self.records@.map_values(|r: Vec<u8>| r@)
    }

    /// An empty queue.
    pub fn new() -> (q: Self)
        ensures
            q@ == Seq::<Seq<u8>>::empty(),
    {
        let q = RecordQueue { records: VecDeque::new() };
        assert(q@ =~= Seq::<Seq<u8>>::empty());
        q
    }

    /// Appends a record at the back.
    pub fn push(&mut self, record: Vec<u8>)
        ensures
            final(self)@ == old(self)@.push(record@),
    {
        self.records.push_back(record);
        assert(self@ =~= old(self)@.push(record@));
    }

    /// Whether no record is queued.
    pub fn is_empty(&self) -> (b: bool)
        ensures
            b == (self@.len() == 0),
    {
        self.records.len() == 0
    }

    /// Drops every record.
    pub fn clear(&mut self)
        ensures
            final(self)@ == Seq::<Seq<u8>>::empty(),
    {
        self.records.clear();
        assert(self@ =~= Seq::<Seq<u8>>::empty());
    }
}

/// The records that fit are never more than the queue holds, and together
/// they fit in the buffer.
pub proof fn lemma_fit_count_bound(records: Seq<Seq<u8>>, cap: int)
    ensures
        fit_count(records, cap) <= records.len(),
        cap >= 0 ==> joined(records.take(fit_count(records, cap) as int)).len() <= cap,
    decreases records.len(),
{
    if records.len() > 0 && records[0].len() <= cap {
        let rest = records.drop_first();
        lemma_fit_count_bound(rest, cap - records[0].len());
        let k = fit_count(rest, cap - records[0].len());
        lemma_joined_prepend(records[0], rest.take(k as int));
        assert(records.take(k + 1 as int) =~= seq![records[0]] + rest.take(k as int));
    }
}

proof fn lemma_joined_prepend(first: Seq<u8>, rest: Seq<Seq<u8>>)
    ensures
        joined(seq![first] + rest) == first + joined(rest),
    decreases rest.len(),
{
    if rest.len() == 0 {
        assert(seq![first] + rest =~= seq![first]);
        assert(seq![first].drop_last() =~= Seq::<Seq<u8>>::empty());
        assert(joined(seq![first]) == joined(seq![first].drop_last()) + seq![first].last());
        assert(Seq::<u8>::empty() + first =~= first);
        assert(first + Seq::<u8>::empty() =~= first);
    } else {
        lemma_joined_prepend(first, rest.drop_last());
        assert((seq![first] + rest).drop_last() =~= seq![first] + rest.drop_last());
        assert(first + joined(rest.drop_last()) + rest.last() =~= first + (joined(
            rest.drop_last(),
        ) + rest.last()));
    }
}

/// A reader whose buffer holds all queued records gets all of them.
pub proof fn lemma_room_for_all(records: Seq<Seq<u8>>, cap: int)
    requires
        joined(records).len() <= cap,
    ensures
        fit_count(records, cap) == records.len(),
    decreases records.len(),
{
    if records.len() > 0 {
        let rest = records.drop_first();
        lemma_joined_prepend(records[0], rest);
        assert(seq![records[0]] + rest =~= records);
        lemma_room_for_all(rest, cap - records[0].len());
    }
}

/// A record longer than the reader's buffer blocks the queue: nothing is read.
pub proof fn lemma_oversized_head_blocks(records: Seq<Seq<u8>>, cap: int)
    requires
        records.len() > 0,
        records[0].len() > cap,
    ensures
        fit_count(records, cap) == 0,
{
}

/// Moves whole records from the front of `trace_buf` into `buf`, as many as
/// fit one after another, and says how many bytes were written. A record
/// that does not fit stays queued for the next read.
pub fn common_trace_pipe_read(trace_buf: &mut RecordQueue, buf: &mut [u8]) -> (n: usize)
    ensures
        ({
            let k = fit_count(old(trace_buf)@, old(buf)@.len() as int);
            let data = joined(old(trace_buf)@.take(k as int));
            &&& n == data.len()
            &&& final(buf)@ == data + old(buf)@.skip(n as int)
            &&& final(trace_buf)@ == old(trace_buf)@.skip(k as int)
        }),
{
    let ghost q = trace_buf@;
    let ghost b0 = buf@;
    let ghost cap = b0.len() as int;
    let mut copy_len: usize = 0;
    let ghost mut taken: int = 0;
    proof {
        lemma_fit_count_bound(q, cap);
        assert(q.skip(0) =~= q);
        assert(q.take(0) =~= Seq::<Seq<u8>>::empty());
        assert(b0.skip(0) =~= b0);
        assert(joined(q.take(0)) + b0.skip(0) =~= b0);
    }
    loop
        invariant
            b0.len() == buf@.len(),
            cap == b0.len(),
            0 <= taken <= fit_count(q, cap),
            fit_count(q, cap) <= q.len(),
            trace_buf@ == q.skip(taken),
            fit_count(q, cap) == taken + fit_count(q.skip(taken), cap - copy_len),
            copy_len == joined(q.take(taken)).len(),
            copy_len <= cap,
            buf@ == joined(q.take(taken)) + b0.skip(copy_len as int),
        ensures
            taken == fit_count(q, cap),
            trace_buf@ == q.skip(taken),
            copy_len == joined(q.take(taken)).len(),
            buf@ == joined(q.take(taken)) + b0.skip(copy_len as int),
        decreases q.len() - taken,
    {
        if trace_buf.records.len() == 0 {
            assert(fit_count(q.skip(taken), cap - copy_len) == 0);
            break;
        }
        let len = trace_buf.records[0].len();
        let ghost rest = q.skip(taken);
        proof {
            assert(rest.len() > 0);
            assert(rest[0] == trace_buf.records@[0]@);
            assert(rest[0].len() == len);
            assert(buf@.len() == cap);
            assert(copy_len <= cap);
        }
        if len > buf.len() - copy_len {
            assert(rest[0].len() > cap - copy_len);
            assert(fit_count(rest, cap - copy_len) == 0);
            break;
        }
        proof {
            assert(fit_count(rest, cap - copy_len) == 1 + fit_count(
                rest.drop_first(),
                cap - copy_len - len,
            ));
        }
        let ghost rec = q[taken];
        assert(rec == trace_buf.records@[0]@);
        let ghost buf_before = buf@;
        let mut j: usize = 0;
        while j < len
            invariant
                j <= len,
                len == rec.len(),
                trace_buf.records@.len() > 0,
                trace_buf.records@[0]@ == rec,
                copy_len + len <= buf@.len(),
                copy_len + len <= usize::MAX,
                buf@.len() == buf_before.len(),
                buf@ == buf_before.subrange(0, copy_len as int) + rec.take(j as int)
                    + buf_before.skip(copy_len + j),
            decreases len - j,
        {
            buf[copy_len + j] = trace_buf.records[0][j];
            j = j + 1;
            proof {
                assert(buf@ =~= buf_before.subrange(0, copy_len as int) + rec.take(j as int)
                    + buf_before.skip(copy_len + j));
            }
        }
        let _ = trace_buf.records.pop_front();
        proof {
            assert(rest.drop_first() =~= q.skip(taken + 1));
            assert(q.take(taken + 1).drop_last() =~= q.take(taken));
            assert(q.take(taken + 1).last() == rec);
            assert(joined(q.take(taken)) =~= buf_before.subrange(0, copy_len as int));
            assert(rec.take(len as int) =~= rec);
        }
        copy_len = copy_len + len;
        proof {
            taken = taken + 1;
            assert(trace_buf@ =~= q.skip(taken));
            assert(buf@ =~= joined(q.take(taken)) + b0.skip(copy_len as int));
        }
    }
    copy_len
}

/// The `trace_pipe` file: a blocking reader of the live record queue.
pub struct TracePipeFile;

/// What one attempt to read `trace_pipe` comes to.
#[derive(Clone, Copy, PartialEq, Eq, Debug, Structural)]
pub enum PipeRead {
    /// This many bytes were read.
    Done(usize),
    /// Nothing could be read: the reader waits until the queue is readable
    /// and tries again.
    Wait,
}

impl TracePipeFile {
    /// One attempt to read: moves whole records into `buf` as
    /// `common_trace_pipe_read` does, and tells the reader to wait when
    /// that read nothing.
    pub fn read_at(&self, pipe: &mut RecordQueue, buf: &mut [u8]) -> (r: PipeRead)
        ensures
            ({
                let k = fit_count(old(pipe)@, old(buf)@.len() as int);
                let data = joined(old(pipe)@.take(k as int));
                &&& r == if data.len() > 0 {
                    PipeRead::Done(data.len() as usize)
                } else {
                    PipeRead::Wait
                }
                &&& final(buf)@ == data + old(buf)@.skip(data.len() as int)
                &&& final(pipe)@ == old(pipe)@.skip(k as int)
            }),
    {
        let n = common_trace_pipe_read(pipe, buf);
        if n != 0 {
            PipeRead::Done(n)
        } else {
            PipeRead::Wait
        }
    }

    /// Whether a read would find a record.
    pub fn readable(&self, pipe: &RecordQueue) -> (b: bool)
        ensures
            b == (pipe@.len() > 0),
    {
        !pipe.is_empty()
    }
}

/// A frozen copy of the record queue together with the header that the
/// `trace` file shows before the records.
pub struct TraceSnapshot {
    pub header: Vec<u8>,
    pub records: RecordQueue,
}

/// The `trace` file: reads a snapshot of the queue, header first. Reading
/// from offset 0 takes a new snapshot.
pub struct TraceFile {
    snapshot: Option<TraceSnapshot>,
}

impl TraceFile {
    /// The snapshot being read, as header and records.
    pub closed spec fn snapshot(&self) -> Option<(Seq<u8>, Seq<Seq<u8>>)> {
        match self.snapshot {
            Some(s) => Some((s.header@, s.records@)),
            None => None,
        }
    }

    /// A file with no snapshot yet.
    pub fn new() -> (f: Self)
        ensures
            f.snapshot() is None,
    {
        TraceFile { snapshot: None }
    }

    /// Reads at `offset`: below the header's length, the header bytes from
    /// `offset` on, as many as fit; from the header's length on, whole records
    /// of the snapshot, which are used up. `fresh` is the snapshot to take when
    /// there is none yet or the read starts at offset 0.
    pub fn read_at(&mut self, fresh: TraceSnapshot, buf: &mut [u8], offset: u64) -> (n: usize)
        ensures
            ({
                let offset = offset as usize;
                let snap = if old(self).snapshot() is None || offset == 0 {
                    (fresh.header@, fresh.records@)
                } else {
                    old(self).snapshot()->0
                };
                let header = snap.0;
                if offset >= header.len() {
                    let k = fit_count(snap.1, old(buf)@.len() as int);
                    let data = joined(snap.1.take(k as int));
                    &&& n == data.len()
                    &&& final(buf)@ == data + old(buf)@.skip(n as int)
                    &&& final(self).snapshot() == Some((header, snap.1.skip(k as int)))
                } else {
                    let len = if old(buf)@.len() < header.len() - offset {
                        old(buf)@.len() as int
                    } else {
                        header.len() - offset
                    };
                    &&& n == len
                    &&& final(buf)@ == header.subrange(offset as int, offset + len) + old(
                        buf,
                    )@.skip(len)
                    &&& final(self).snapshot() == Some(snap)
                }
            }),
    {
        let offset = offset as usize;
        if self.snapshot.is_none() || offset == 0 {
            self.snapshot = Some(fresh);
        }
        let snapshot = match &mut self.snapshot {
            Some(s) => s,
            None => {
                return 0;
            },
        };
        let hlen = snapshot.header.len();
        if offset >= hlen {
            common_trace_pipe_read(&mut snapshot.records, buf)
        } else {
            let len = if buf.len() < hlen - offset {
                buf.len()
            } else {
                hlen - offset
            };
            let ghost b0 = buf@;
            let mut j: usize = 0;
            while j < len
                invariant
                    j <= len <= buf@.len(),
                    offset + len <= hlen == snapshot.header@.len(),
                    buf@.len() == b0.len(),
                    buf@ == snapshot.header@.subrange(offset as int, offset + j) + b0.skip(
                        j as int,
                    ),
                decreases len - j,
            {
                buf[j] = snapshot.header[offset + j];
                j = j + 1;
                proof {
                    assert(buf@ =~= snapshot.header@.subrange(offset as int, offset + j)
                        + b0.skip(j as int));
                }
            }
            len
        }
    }

    /// Writing to `trace` clears the live queue; the whole write is taken.
    pub fn write_at(&self, pipe: &mut RecordQueue, buf: &[u8]) -> (n: usize)
        ensures
            n == buf@.len(),
            final(pipe)@ == Seq::<Seq<u8>>::empty(),
    {
        pipe.clear();
        buf.len()
    }
}

/// The `saved_cmdlines` file: reads a snapshot of the command-line cache,
/// one whole `pid name` line at a time. Reading from offset 0 takes a new
/// snapshot.
pub struct TraceCmdLineFile {
    snapshot: Option<RecordQueue>,
}

impl TraceCmdLineFile {
    /// The lines of the snapshot not yet read.
    pub closed spec fn snapshot(&self) -> Option<Seq<Seq<u8>>> {
        match self.snapshot {
            Some(s) => Some(s@),
            None => None,
        }
    }

    /// A file with no snapshot yet.
    pub fn new() -> (f: Self)
        ensures
            f.snapshot() is None,
    {
        TraceCmdLineFile { snapshot: None }
    }

    /// Reads whole lines of the snapshot, as many as fit; `fresh` is the
    /// snapshot to take when there is none yet or the read starts at 0.
    pub fn read_at(&mut self, fresh: RecordQueue, buf: &mut [u8], offset: u64) -> (n: usize)
        ensures
            ({
                let lines = if old(self).snapshot() is None || offset == 0 {
                    fresh@
                } else {
                    old(self).snapshot()->0
                };
                let k = fit_count(lines, old(buf)@.len() as int);
                let data = joined(lines.take(k as int));
                &&& n == data.len()
                &&& final(buf)@ == data + old(buf)@.skip(n as int)
                &&& final(self).snapshot() == Some(lines.skip(k as int))
            }),
    {
        if self.snapshot.is_none() || offset == 0 {
            self.snapshot = Some(fresh);
        }
        match &mut self.snapshot {
            Some(s) => common_trace_pipe_read(s, buf),
            None => 0,
        }
    }
}

/// The index of the last `c` in `s`, or -1.
pub open spec fn rfind(s: Seq<char>, c: char, to: int) -> int
    decreases to,
{
    if to <= 0 {
        -1
    } else if s[to - 1] == c {
        to - 1
    } else {
        rfind(s, c, to - 1)
    }
}

/// The process name recorded for an executable path: the first
/// space-separated word, without its directories.
pub open spec fn process_name_of(exe_path: Seq<char>) -> Seq<char> {
    let word = exe_path.take(find_from(exe_path, ' ', 0));
    word.skip(rfind(word, '/', word.len() as int) + 1)
}

/// The name under which `trace_cmdline_push` caches a process: the part of
/// the first word of its executable path after the last `/`.
pub fn process_name(exe_path: &str) -> (name: String)
    ensures
        name@ == process_name_of(exe_path@),
{
    let cs = chars_of(exe_path);
    let end = find_char(&cs, ' ', 0);
    let mut j = end;
    while j > 0 && cs[j - 1] != '/'
        invariant
            j <= end <= cs.len(),
            rfind(cs@.take(end as int), '/', j as int) == rfind(
                cs@.take(end as int),
                '/',
                end as int,
            ),
        decreases j,
    {
        j = j - 1;
    }
    proof {
        let word = cs@.take(end as int);
        if j > 0 {
            assert(word[j - 1] == cs@[j - 1]);
        }
        assert(rfind(word, '/', end as int) + 1 == j);
        assert(word.skip(j as int) =~= cs@.subrange(j as int, end as int));
    }
    string_from_chars(&cs, j, end)
}

} // verus!
