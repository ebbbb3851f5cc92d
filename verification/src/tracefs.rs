//! The layout of the tracing directory in the debug filesystem: the fixed
//! control files, and one directory per tracepoint subsystem, in name
//! order, holding one directory per event.

use vstd::prelude::*;

use crate::text::{chars_of, string_views};

verus! {

/// Read-write for the owner, readable for the group (`0o640`).
pub const PERM_CONTROL: u32 = 0o640;

/// Read-only for owner and group (`0o440`).
pub const PERM_READ_ONLY: u32 = 0o440;

/// The files of the tracing root, with their permissions; the `events`
/// directory comes after them.
pub fn tracing_root_files() -> (files: Vec<(&'static str, u32)>)
    ensures
        files@.len() == 4,
        files@[0].0@ == "saved_cmdlines_size"@ && files@[0].1 == 0o640,
        files@[1].0@ == "trace_pipe"@ && files@[1].1 == 0o440,
        files@[2].0@ == "saved_cmdlines"@ && files@[2].1 == 0o440,
        files@[3].0@ == "trace"@ && files@[3].1 == 0o640,
{
    let mut files: Vec<(&'static str, u32)> = Vec::new();
    files.push(("saved_cmdlines_size", PERM_CONTROL));
    files.push(("trace_pipe", PERM_READ_ONLY));
    files.push(("saved_cmdlines", PERM_READ_ONLY));
    files.push(("trace", PERM_CONTROL));
    files
}

/// The files of each event directory, with their permissions.
pub fn event_files() -> (files: Vec<(&'static str, u32)>)
    ensures
        files@.len() == 4,
        files@[0].0@ == "enable"@ && files@[0].1 == 0o640,
        files@[1].0@ == "format"@ && files@[1].1 == 0o440,
        files@[2].0@ == "id"@ && files@[2].1 == 0o440,
        files@[3].0@ == "filter"@ && files@[3].1 == 0o640,
{
    let mut files: Vec<(&'static str, u32)> = Vec::new();
    files.push(("enable", PERM_CONTROL));
    files.push(("format", PERM_READ_ONLY));
    files.push(("id", PERM_READ_ONLY));
    files.push(("filter", PERM_CONTROL));
    files
}

/// `a` sorts before `b`: the order of `String`s, character by character.
pub open spec fn lex_lt(a: Seq<char>, b: Seq<char>) -> bool
    decreases a.len(),
{
    if a.len() == 0 {
        b.len() > 0
    } else if b.len() == 0 {
        false
    } else if (a[0] as int) < (b[0] as int) {
        true
    } else if a[0] == b[0] {
        lex_lt(a.drop_first(), b.drop_first())
    } else {
        false
    }
}

/// No name sorts before itself.
pub proof fn lemma_lex_irreflexive(a: Seq<char>)
    ensures
        !lex_lt(a, a),
    decreases a.len(),
{
    if a.len() > 0 {
        lemma_lex_irreflexive(a.drop_first());
    }
}

/// The name order is transitive.
pub proof fn lemma_lex_transitive(a: Seq<char>, b: Seq<char>, c: Seq<char>)
    requires
        lex_lt(a, b),
        lex_lt(b, c),
    ensures
        lex_lt(a, c),
    decreases a.len(),
{
    if a.len() > 0 && b.len() > 0 && c.len() > 0 && a[0] == b[0] && b[0] == c[0] {
        lemma_lex_transitive(a.drop_first(), b.drop_first(), c.drop_first());
    }
}

/// Of two different names, one sorts before the other.
pub proof fn lemma_lex_total(a: Seq<char>, b: Seq<char>)
    ensures
        a == b || lex_lt(a, b) || lex_lt(b, a),
    decreases a.len(),
{
    if a.len() > 0 && b.len() > 0 && a[0] == b[0] {
        lemma_lex_total(a.drop_first(), b.drop_first());
        if a.drop_first() == b.drop_first() {
            assert(a =~= seq![a[0]] + a.drop_first());
            assert(b =~= seq![b[0]] + b.drop_first());
        }
    } else if a.len() > 0 && b.len() > 0 {
        assert((a[0] as int) != (b[0] as int));
    } else if a.len() == 0 && b.len() == 0 {
        assert(a =~= b);
    }
}

/// Whether `a` sorts before `b`.
pub fn str_lt(a: &str, b: &str) -> (r: bool)
    ensures
        r == lex_lt(a@, b@),
{
    let x = chars_of(a);
    let y = chars_of(b);
    let mut i: usize = 0;
    assert(x@.skip(0) =~= x@ && y@.skip(0) =~= y@);
    while i < x.len() && i < y.len() && x[i] == y[i]
        invariant
            i <= x@.len(),
            i <= y@.len(),
            lex_lt(x@.skip(i as int), y@.skip(i as int)) == lex_lt(a@, b@),
            x@ == a@,
            y@ == b@,
        decreases x@.len() - i,
    {
        proof {
            assert(x@.skip(i as int).drop_first() =~= x@.skip(i + 1));
            assert(y@.skip(i as int).drop_first() =~= y@.skip(i + 1));
        }
        i = i + 1;
    }
    let ghost xs = x@.skip(i as int);
    let ghost ys = y@.skip(i as int);
    if i == x.len() {
        assert(xs.len() == 0);
        i < y.len()
    } else if i == y.len() {
        false
    } else {
        assert(xs[0] == x@[i as int] && ys[0] == y@[i as int]);
        x[i] < y[i]
    }
}

/// The names of the events of subsystem `sys`, in tracepoint order.
pub open spec fn events_of(tps: Seq<(Seq<char>, Seq<char>)>, sys: Seq<char>) -> Seq<Seq<char>>
    decreases tps.len(),
{
    if tps.len() == 0 {
        Seq::empty()
    } else {
        let rest = events_of(tps.drop_last(), sys);
        if tps.last().0 == sys {
            rest.push(tps.last().1)
        } else {
            rest
        }
    }
}

/// Whether some tracepoint belongs to subsystem `sys`.
pub open spec fn has_system(tps: Seq<(Seq<char>, Seq<char>)>, sys: Seq<char>) -> bool {
    exists|j: int| 0 <= j < tps.len() && #[trigger] tps[j].0 == sys
}

/// One subsystem directory of `events/`.
pub struct SubsystemDir {
    pub name: String,
    pub events: Vec<String>,
}

/// The subsystem names and their event names.
pub open spec fn dirs_view(d: Seq<SubsystemDir>) -> Seq<(Seq<char>, Seq<Seq<char>>)> {
    d.map_values(|s: SubsystemDir| (s.name@, string_views(s.events@)))
}

/// The tracepoints as pairs of subsystem name and event name.
pub open spec fn tracepoints_view(tps: Seq<(String, String)>) -> Seq<(Seq<char>, Seq<char>)> {
    tps.map_values(|t: (String, String)| (t.0@, t.1@))
}

/// The `events/` layout for a set of tracepoints is well grouped: one
/// directory per subsystem, in name order, each listing its events in
/// tracepoint order.
pub open spec fn grouped(d: Seq<(Seq<char>, Seq<Seq<char>>)>, tps: Seq<(Seq<char>, Seq<char>)>) -> bool {
    &&& forall|i: int, j: int| 0 <= i < j < d.len() ==> lex_lt(d[i].0, d[j].0)
    &&& forall|i: int| 0 <= i < d.len() ==> has_system(tps, #[trigger] d[i].0)
    &&& forall|j: int|
        #![trigger tps[j]]
        0 <= j < tps.len() ==> exists|i: int| 0 <= i < d.len() && #[trigger] d[i].0 == tps[j].0
    &&& forall|i: int| 0 <= i < d.len() ==> #[trigger] d[i].1 == events_of(tps, d[i].0)
}

proof fn lemma_events_of_other(tps: Seq<(Seq<char>, Seq<char>)>, t: (Seq<char>, Seq<char>), sys: Seq<char>)
    requires
        t.0 != sys,
    ensures
        events_of(tps.push(t), sys) == events_of(tps, sys),
{
    assert(tps.push(t).drop_last() =~= tps);
}

proof fn lemma_events_of_none(tps: Seq<(Seq<char>, Seq<char>)>, sys: Seq<char>)
    requires
        !has_system(tps, sys),
    ensures
        events_of(tps, sys) == Seq::<Seq<char>>::empty(),
    decreases tps.len(),
{
    if tps.len() > 0 {
        assert(tps.last() == tps[tps.len() - 1]);
        assert(!has_system(tps.drop_last(), sys)) by {
            if has_system(tps.drop_last(), sys) {
                let j = choose|j: int| 0 <= j < tps.drop_last().len() && #[trigger] tps.drop_last()[j].0 == sys;
                assert(tps[j] == tps.drop_last()[j]);
            }
        }
        lemma_events_of_none(tps.drop_last(), sys);
    }
}

/// Groups the tracepoints, given as (subsystem, event) names, into the
/// subsystem directories of `events/`: one per subsystem, in name order,
/// each listing its events in tracepoint order.
pub fn group_events(tracepoints: &Vec<(String, String)>) -> (dirs: Vec<SubsystemDir>)
    ensures
        grouped(dirs_view(dirs@), tracepoints_view(tracepoints@)),
{
    let ghost all = tracepoints_view(tracepoints@);
    let mut dirs: Vec<SubsystemDir> = Vec::new();
    let mut k: usize = 0;
    while k < tracepoints.len()
        invariant
            k <= tracepoints@.len(),
            all == tracepoints_view(tracepoints@),
            grouped(dirs_view(dirs@), all.take(k as int)),
        decreases tracepoints@.len() - k,
    {
        let ghost before = dirs_view(dirs@);
        let ghost done = all.take(k as int);
        let ghost next = all.take(k + 1);
        let sys = &tracepoints[k].0;
        let ev = &tracepoints[k].1;
        let ghost t = (sys@, ev@);
        proof {
            assert(all[k as int] == t);
            assert(next =~= done.push(t));
        }
        let mut p: usize = 0;
        while p < dirs.len() && str_lt(dirs[p].name.as_str(), sys.as_str())
            invariant
                p <= dirs@.len(),
                before == dirs_view(dirs@),
                t.0 == sys@,
                forall|i: int| 0 <= i < p ==> lex_lt(before[i].0, t.0),
            decreases dirs@.len() - p,
        {
            assert(before[p as int].0 == dirs@[p as int].name@);
            p = p + 1;
        }
        let found = p < dirs.len() && crate::text::str_eq(dirs[p].name.as_str(), sys.as_str());
        proof {
            if p < dirs@.len() {
                assert(before[p as int].0 == dirs@[p as int].name@);
            }
        }
        if found {
            let ghost g = before[p as int];
            let mut entry = dirs.remove(p);
            let ghost old_events = entry.events@;
            entry.events.push(ev.clone());
            proof {
                assert(string_views(entry.events@) =~= string_views(old_events).push(ev@));
            }
            dirs.insert(p, entry);
            proof {
                let after = dirs_view(dirs@);
                assert(after =~= before.update(p as int, (g.0, g.1.push(ev@))));
                assert forall|i: int| 0 <= i < after.len() implies has_system(next, #[trigger] after[i].0) by {
                    assert(has_system(done, before[i].0));
                    let j = choose|j: int| 0 <= j < done.len() && #[trigger] done[j].0 == before[i].0;
                    assert(next[j] == done[j]);
                }
                assert forall|j: int| #![trigger next[j]] 0 <= j < next.len() implies exists|i: int|
                    0 <= i < after.len() && #[trigger] after[i].0 == next[j].0 by {
                    if j < done.len() {
                        assert(next[j] == done[j]);
                        let i = choose|i: int| 0 <= i < before.len() && #[trigger] before[i].0 == done[j].0;
                        assert(after[i].0 == before[i].0);
                    } else {
                        assert(after[p as int].0 == next[j].0);
                    }
                }
                assert forall|i: int| 0 <= i < after.len() implies #[trigger] after[i].1 == events_of(next, after[i].0) by {
                    assert(next.drop_last() =~= done);
                    if i != p {
                        assert(before[i].0 != t.0) by {
                            if i < p {
                                lemma_lex_irreflexive(t.0);
                            } else {
                                lemma_lex_irreflexive(before[p as int].0);
                            }
                        }
                        lemma_events_of_other(done, t, before[i].0);
                    }
                }
            }
        } else {
            let mut events: Vec<String> = Vec::new();
            events.push(ev.clone());
            let entry = SubsystemDir { name: sys.clone(), events };
            proof {
                if p < dirs@.len() {
                    lemma_lex_total(before[p as int].0, t.0);
                }
                assert(string_views(entry.events@) =~= seq![ev@]);
                assert(!has_system(done, t.0)) by {
                    if has_system(done, t.0) {
                        let j = choose|j: int| 0 <= j < done.len() && #[trigger] done[j].0 == t.0;
                        let i = choose|i: int| 0 <= i < before.len() && #[trigger] before[i].0 == done[j].0;
                        if i < p {
                            lemma_lex_irreflexive(t.0);
                        } else if i == p {
                        } else {
                            lemma_lex_transitive(t.0, before[p as int].0, before[i].0);
                            lemma_lex_irreflexive(t.0);
                        }
                    }
                }
                lemma_events_of_none(done, t.0);
                assert(next.drop_last() =~= done);
            }
            dirs.insert(p, entry);
            proof {
                let after = dirs_view(dirs@);
                let nd = (t.0, seq![t.1]);
                assert(after =~= before.insert(p as int, nd));
                assert forall|i: int, j: int| 0 <= i < j < after.len() implies lex_lt(after[i].0, after[j].0) by {
                    if i < p && j == p {
                    } else if i < p && j > p {
                        assert(after[j] == before[j - 1]);
                        assert(after[i] == before[i]);
                    } else if i == p {
                        assert(after[j] == before[j - 1]);
                        if j - 1 > p {
                            lemma_lex_transitive(t.0, before[p as int].0, before[j - 1].0);
                        }
                    } else if j < p {
                        assert(after[i] == before[i] && after[j] == before[j]);
                    } else {
                        assert(after[i] == before[i - 1] && after[j] == before[j - 1]);
                    }
                }
                assert forall|i: int| 0 <= i < after.len() implies has_system(next, #[trigger] after[i].0) by {
                    if i == p {
                        assert(next[k as int] == t);
                    } else {
                        let bi = if i < p { i } else { i - 1 };
                        assert(after[i] == before[bi]);
                        let j = choose|j: int| 0 <= j < done.len() && #[trigger] done[j].0 == before[bi].0;
                        assert(next[j] == done[j]);
                    }
                }
                assert forall|j: int| #![trigger next[j]] 0 <= j < next.len() implies exists|i: int|
                    0 <= i < after.len() && #[trigger] after[i].0 == next[j].0 by {
                    if j < done.len() {
                        assert(next[j] == done[j]);
                        let i = choose|i: int| 0 <= i < before.len() && #[trigger] before[i].0 == done[j].0;
                        if i < p {
                            assert(after[i] == before[i]);
                        } else {
                            assert(after[i + 1] == before[i]);
                        }
                    } else {
                        assert(after[p as int].0 == next[j].0);
                    }
                }
                assert forall|i: int| 0 <= i < after.len() implies #[trigger] after[i].1 == events_of(next, after[i].0) by {
                    if i == p {
                        assert(events_of(next, t.0) == events_of(done, t.0).push(t.1));
                        assert(Seq::<Seq<char>>::empty().push(t.1) =~= seq![t.1]);
                    } else {
                        let bi = if i < p { i } else { i - 1 };
                        assert(after[i] == before[bi]);
                        assert(before[bi].0 != t.0) by {
                            if bi < p {
                                lemma_lex_irreflexive(t.0);
                            } else {
                                if bi > p {
                                    lemma_lex_transitive(t.0, before[p as int].0, before[bi].0);
                                }
                                lemma_lex_irreflexive(t.0);
                            }
                        }
                        lemma_events_of_other(done, t, before[bi].0);
                    }
                }
            }
        }
        k = k + 1;
    }
    proof {
        assert(all.take(k as int) =~= all);
    }
    dirs
}

} // verus!
