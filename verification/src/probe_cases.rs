//! The logic of the CPU-state probe cases of the hypervisor guest tests:
//! the little-endian words of the shared page, the checks each case makes
//! on what the user-mode probe left there, and the diffs they report.

use vstd::prelude::*;

use vstd::arithmetic::div_mod::{
    lemma_div_multiples_vanish_fancy, lemma_mod_breakdown, lemma_mod_multiples_vanish,
};

use crate::guest::{
    bool_text, decoded_el, format_return_reason, push_bool, record_text, return_reason_text,
    decode_record, CpuRecord, DzeOutcome, ReturnReason,
};
use crate::text::{decimal, push_decimal, push_str};

verus! {

/// The value of little-endian bytes.
pub open spec fn le_value(s: Seq<u8>) -> nat
    decreases s.len(),
{
    if s.len() == 0 {
        0
    } else {
        s[0] as nat + 256 * le_value(s.drop_first())
    }
}

/// The `n` low bytes of `v`, least significant first.
pub open spec fn le_bytes(v: nat, n: nat) -> Seq<u8>
    decreases n,
{
    if n == 0 {
        Seq::empty()
    } else {
        seq![(v % 256) as u8] + le_bytes(v / 256, (n - 1) as nat)
    }
}

/// `256` to the power `n`.
pub open spec fn pow256(n: nat) -> nat
    decreases n,
{
    if n == 0 {
        1
    } else {
        256 * pow256((n - 1) as nat)
    }
}

proof fn lemma_pow256_mono(a: nat, b: nat)
    requires
        a <= b,
    ensures
        1 <= pow256(a) <= pow256(b),
    decreases b,
{
    if b > a {
        lemma_pow256_mono(a, (b - 1) as nat);
    } else if a > 0 {
        lemma_pow256_mono((a - 1) as nat, (a - 1) as nat);
    }
}

proof fn lemma_le_value_bound(s: Seq<u8>)
    ensures
        le_value(s) < pow256(s.len()),
    decreases s.len(),
{
    if s.len() > 0 {
        lemma_le_value_bound(s.drop_first());
    }
}

/// Eight bytes hold every 64-bit value.
pub proof fn lemma_pow256_eight()
    ensures
        pow256(8) == 0x1_0000_0000_0000_0000,
{
    reveal_with_fuel(pow256, 9);
}

/// Reading back the `n` low bytes of `v` gives `v` modulo `256^n`.
pub proof fn lemma_le_bytes_value(v: nat, n: nat)
    ensures
        le_bytes(v, n).len() == n,
        le_value(le_bytes(v, n)) == v % pow256(n),
    decreases n,
{
    if n > 0 {
        let m = (n - 1) as nat;
        lemma_le_bytes_value(v / 256, m);
        let b = le_bytes(v, n);
        assert(b.drop_first() =~= le_bytes(v / 256, m));
        lemma_pow256_mono(0, m);
        lemma_mod_breakdown(v as int, 256, pow256(m) as int);
    }
}

/// The bytes of a little-endian value are the bytes it was read from.
pub proof fn lemma_le_value_bytes(s: Seq<u8>)
    ensures
        le_bytes(le_value(s), s.len()) == s,
    decreases s.len(),
{
    if s.len() > 0 {
        let rest = s.drop_first();
        lemma_le_value_bytes(rest);
        let v = le_value(s);
        assert(v == 256 * le_value(rest) + s[0]);
        lemma_mod_multiples_vanish(le_value(rest) as int, s[0] as int, 256);
        lemma_div_multiples_vanish_fancy(le_value(rest) as int, s[0] as int, 256);
        assert(v % 256 == s[0]);
        assert(v / 256 == le_value(rest));
        assert(le_bytes(v, s.len()) =~= seq![s[0]] + le_bytes(le_value(rest), rest.len()));
        assert(s =~= seq![s[0]] + rest);
    }
}

/// A 64-bit value written as little-endian bytes reads back unchanged.
pub proof fn lemma_le_round_trip(v: u64)
    ensures
        le_value(le_bytes(v as nat, 8)) == v,
{
    lemma_le_bytes_value(v as nat, 8);
    lemma_pow256_eight();
}

/// The little-endian `u64` in `bytes[off..off + 8]` (`u64::from_le_bytes`).
pub fn u64_from_le(bytes: &[u8], off: usize) -> (v: u64)
    requires
        off + 8 <= bytes@.len(),
    ensures
        v == le_value(bytes@.subrange(off as int, off + 8)),
{
    let ghost end = off + 8;
    let len = bytes.len();
    let mut acc: u64 = 0;
    let mut i: usize = 8;
    assert(bytes@.subrange(end, end) =~= Seq::<u8>::empty());
    while i > 0
        invariant
            i <= 8,
            off + 8 <= bytes@.len(),
            len == bytes@.len(),
            end == off + 8,
            acc == le_value(bytes@.subrange(off + i, end)),
        decreases i,
    {
        i = i - 1;
        let ghost t = bytes@.subrange(off + i, end);
        proof {
            assert(t.drop_first() =~= bytes@.subrange(off + i + 1, end));
            assert(t[0] == bytes@[off + i]);
            lemma_le_value_bound(t);
            lemma_pow256_mono(t.len(), 8);
            lemma_pow256_eight();
        }
        acc = acc * 256 + bytes[off + i] as u64;
    }
    acc
}

/// The little-endian bytes of `v` (`u64::to_le_bytes`).
pub fn u64_to_le(v: u64) -> (b: Vec<u8>)
    ensures
        b@ == le_bytes(v as nat, 8),
{
    let mut b: Vec<u8> = Vec::new();
    let mut x: u64 = v;
    let mut i: usize = 0;
    assert(b@ + le_bytes(x as nat, 8) =~= le_bytes(v as nat, 8));
    while i < 8
        invariant
            i <= 8,
            b@ + le_bytes(x as nat, (8 - i) as nat) == le_bytes(v as nat, 8),
        decreases 8 - i,
    {
        let ghost before = b@;
        let ghost x0 = x as nat;
        let ghost n = (8 - i) as nat;
        proof {
            assert(le_bytes(x0, n) =~= seq![(x0 % 256) as u8] + le_bytes(x0 / 256, (n - 1) as nat));
        }
        b.push((x % 256) as u8);
        x = x / 256;
        i = i + 1;
        proof {
            assert(b@ + le_bytes(x as nat, (8 - i) as nat) =~= before + le_bytes(x0, n));
        }
    }
    assert(le_bytes(x as nat, 0) =~= Seq::<u8>::empty());
    assert(b@ =~= b@ + le_bytes(x as nat, 0));
    b
}

/// The shared page of the DC ZVA case as the probe starts with it: the
/// observed `DCZID_EL0` and the phase marker zero, then the address of the
/// probe buffer, little-endian.
pub fn dze_shared_init(buffer_start: u64) -> (page: Vec<u8>)
    ensures
        page@.len() == 24,
        forall|i: int| 0 <= i < 16 ==> page@[i] == 0,
        page@.subrange(16, 24) == le_bytes(buffer_start as nat, 8),
{
    let mut page: Vec<u8> = Vec::new();
    let mut i: usize = 0;
    while i < 16
        invariant
            i <= 16,
            page@.len() == i,
            forall|k: int| 0 <= k < i ==> page@[k] == 0,
        decreases 16 - i,
    {
        page.push(0);
        i = i + 1;
    }
    let word = u64_to_le(buffer_start);
    proof {
        lemma_le_bytes_value(buffer_start as nat, 8);
    }
    let mut j: usize = 0;
    while j < 8
        invariant
            j <= 8,
            word@ == le_bytes(buffer_start as nat, 8),
            word@.len() == 8,
            page@.len() == 16 + j,
            forall|k: int| 0 <= k < 16 ==> page@[k] == 0,
            page@.subrange(16, 16 + j as int) == word@.take(j as int),
        decreases 8 - j,
    {
        page.push(word[j]);
        j = j + 1;
        proof {
            assert(page@.subrange(16, 16 + j as int) =~= word@.take(j as int));
        }
    }
    proof {
        assert(word@.take(8) =~= word@);
    }
    page
}

/// A probe case step that failed: the stage and the detail it reports.
#[derive(Clone, Copy, PartialEq, Eq, Debug)]
pub struct CaseFailure {
    pub stage: &'static str,
    pub detail: &'static str,
}

/// The check after the first entry into user mode of the CurrentEL case:
/// the probe must have reached its marker (phase 1) and then trapped on
/// the read of `CurrentEL`.
pub fn currentel_entry_check(phase: u64, trapped: bool) -> (r: Option<CaseFailure>)
    ensures
        phase != 1 ==> r is Some && r->0.stage@ == "enter_el0"@ && r->0.detail@
            == "user code did not reach the EL0 probe marker"@,
        phase == 1 && !trapped ==> r is Some && r->0.stage@ == "currentel_el0_access"@ && r->0.detail@
            == "expected EL0 CurrentEL access to trap as an exception"@,
        phase == 1 && trapped ==> r is None,
{
    if phase != 1 {
        Some(CaseFailure { stage: "enter_el0", detail: "user code did not reach the EL0 probe marker" })
    } else if !trapped {
        Some(CaseFailure { stage: "currentel_el0_access", detail: "expected EL0 CurrentEL access to trap as an exception" })
    } else {
        None
    }
}

/// The check after the CurrentEL probe was resumed past its fault: it must
/// have reached the post-fault marker (phase 2) and left by `SVC`.
pub fn currentel_resume_check(phase: u64, by_syscall: bool) -> (r: Option<CaseFailure>)
    ensures
        phase != 2 ==> r is Some && r->0.stage@ == "resume_after_fault"@ && r->0.detail@
            == "user code did not resume to the post-fault path"@,
        phase == 2 && !by_syscall ==> r is Some && r->0.stage@ == "resume_after_fault"@ && r->0.detail@
            == "expected resumed EL0 path to exit via SVC"@,
        phase == 2 && by_syscall ==> r is None,
{
    if phase != 2 {
        Some(CaseFailure { stage: "resume_after_fault", detail: "user code did not resume to the post-fault path" })
    } else if !by_syscall {
        Some(CaseFailure { stage: "resume_after_fault", detail: "expected resumed EL0 path to exit via SVC" })
    } else {
        None
    }
}

/// What the CurrentEL case observed.
pub struct CurrentElReport {
    pub el1_before: u64,
    pub raw_after_exception: u64,
    pub phase_after_exception: u64,
    pub raw_after_resume: u64,
    pub phase_after_resume: u64,
    pub first_reason: ReturnReason,
    pub second_reason: ReturnReason,
    pub el1_after: u64,
}

/// `{"raw":..,"decoded_el":..}` for a `CurrentEL` value.
pub open spec fn el_text(raw: u64) -> Seq<char> {
    "{\"raw\":"@ + decimal(raw as nat) + ",\"decoded_el\":"@ + decimal(((raw >> 2u64) & 3u64) as nat)
        + "}"@
}

/// The diff of the CurrentEL case.
pub open spec fn currentel_diff_text(r: CurrentElReport) -> Seq<char> {
    "{\"el1_before\":"@ + el_text(r.el1_before) + ",\"el0_probe\":{\"raw_after_exception\":"@
        + decimal(r.raw_after_exception as nat) + ",\"phase_after_exception\":"@ + decimal(
        r.phase_after_exception as nat,
    ) + ",\"raw_after_resume\":"@ + decimal(r.raw_after_resume as nat)
        + ",\"phase_after_resume\":"@ + decimal(r.phase_after_resume as nat)
        + "},\"first_return_reason\":"@ + return_reason_text(r.first_reason)
        + ",\"second_return_reason\":"@ + return_reason_text(r.second_reason) + ",\"el1_after\":"@
        + el_text(r.el1_after) + "}"@
}

fn push_el(out: &mut String, raw: u64)
    ensures
        final(out)@ == old(out)@ + el_text(raw),
{
    push_str(out, "{\"raw\":");
    push_decimal(out, raw);
    push_str(out, ",\"decoded_el\":");
    push_decimal(out, decoded_el(raw));
    push_str(out, "}");
    proof {
        assert(final(out)@ =~= old(out)@ + el_text(raw));
    }
}

/// Renders the diff of the CurrentEL case.
pub fn currentel_diff(r: &CurrentElReport) -> (s: String)
    ensures
        s@ == currentel_diff_text(*r),
{
    let mut s = String::new();
    push_str(&mut s, "{\"el1_before\":");
    push_el(&mut s, r.el1_before);
    push_str(&mut s, ",\"el0_probe\":{\"raw_after_exception\":");
    push_decimal(&mut s, r.raw_after_exception);
    push_str(&mut s, ",\"phase_after_exception\":");
    push_decimal(&mut s, r.phase_after_exception);
    push_str(&mut s, ",\"raw_after_resume\":");
    push_decimal(&mut s, r.raw_after_resume);
    push_str(&mut s, ",\"phase_after_resume\":");
    push_decimal(&mut s, r.phase_after_resume);
    push_str(&mut s, "},\"first_return_reason\":");
    let first = format_return_reason(&r.first_reason);
    push_str(&mut s, first.as_str());
    push_str(&mut s, ",\"second_return_reason\":");
    let second = format_return_reason(&r.second_reason);
    push_str(&mut s, second.as_str());
    push_str(&mut s, ",\"el1_after\":");
    push_el(&mut s, r.el1_after);
    push_str(&mut s, "}");
    proof {
        assert(s@ =~= currentel_diff_text(*r));
    }
    s
}

/// `{"trapped":..,"phase":..}`.
pub open spec fn uma_side_text(trapped: bool, phase: u64) -> Seq<char> {
    "{\"trapped\":"@ + bool_text(trapped) + ",\"phase\":"@ + decimal(phase as nat) + "}"@
}

/// The diff of the `SCTLR_EL1.UMA` case.
pub open spec fn uma_diff_text(
    clear_trapped: bool,
    clear_phase: u64,
    set_trapped: bool,
    set_phase: u64,
) -> Seq<char> {
    "{\"trap_when_clear\":"@ + uma_side_text(clear_trapped, clear_phase) + ",\"allow_when_set\":"@
        + uma_side_text(set_trapped, set_phase) + "}"@
}

fn push_uma_side(out: &mut String, trapped: bool, phase: u64)
    ensures
        final(out)@ == old(out)@ + uma_side_text(trapped, phase),
{
    push_str(out, "{\"trapped\":");
    push_bool(out, trapped);
    push_str(out, ",\"phase\":");
    push_decimal(out, phase);
    push_str(out, "}");
    proof {
        assert(final(out)@ =~= old(out)@ + uma_side_text(trapped, phase));
    }
}

/// Renders the diff of the `SCTLR_EL1.UMA` case from its two probe runs.
pub fn uma_diff(clear_trapped: bool, clear_phase: u64, set_trapped: bool, set_phase: u64) -> (s: String)
    ensures
        s@ == uma_diff_text(clear_trapped, clear_phase, set_trapped, set_phase),
{
    let mut s = String::new();
    push_str(&mut s, "{\"trap_when_clear\":");
    push_uma_side(&mut s, clear_trapped, clear_phase);
    push_str(&mut s, ",\"allow_when_set\":");
    push_uma_side(&mut s, set_trapped, set_phase);
    push_str(&mut s, "}");
    proof {
        assert(s@ =~= uma_diff_text(clear_trapped, clear_phase, set_trapped, set_phase));
    }
    s
}

/// The diff of the `SCTLR_EL1.DZE` case: the run with the bit clear reports
/// whether the buffer stayed unchanged, the run with it set whether the
/// buffer was zeroed.
pub open spec fn dze_diff_text(clear: DzeOutcome, set: DzeOutcome) -> Seq<char> {
    "{\"trap_when_clear\":{\"trapped\":"@ + bool_text(clear.trapped) + ",\"phase\":"@ + decimal(
        clear.phase as nat,
    ) + ",\"dzp\":"@ + bool_text(clear.dzp) + ",\"buffer_unchanged\":"@ + bool_text(
        clear.buffer_unchanged,
    ) + "},\"allow_when_set\":{\"trapped\":"@ + bool_text(set.trapped) + ",\"phase\":"@ + decimal(
        set.phase as nat,
    ) + ",\"dzp\":"@ + bool_text(set.dzp) + ",\"buffer_all_zero\":"@ + bool_text(
        set.buffer_all_zero,
    ) + "}}"@
}

/// Renders the diff of the `SCTLR_EL1.DZE` case from its two probe runs.
pub fn dze_diff(clear: &DzeOutcome, set: &DzeOutcome) -> (s: String)
    ensures
        s@ == dze_diff_text(*clear, *set),
{
    let mut s = String::new();
    push_str(&mut s, "{\"trap_when_clear\":{\"trapped\":");
    push_bool(&mut s, clear.trapped);
    push_str(&mut s, ",\"phase\":");
    push_decimal(&mut s, clear.phase);
    push_str(&mut s, ",\"dzp\":");
    push_bool(&mut s, clear.dzp);
    push_str(&mut s, ",\"buffer_unchanged\":");
    push_bool(&mut s, clear.buffer_unchanged);
    push_str(&mut s, "},\"allow_when_set\":{\"trapped\":");
    push_bool(&mut s, set.trapped);
    push_str(&mut s, ",\"phase\":");
    push_decimal(&mut s, set.phase);
    push_str(&mut s, ",\"dzp\":");
    push_bool(&mut s, set.dzp);
    push_str(&mut s, ",\"buffer_all_zero\":");
    push_bool(&mut s, set.buffer_all_zero);
    push_str(&mut s, "}}");
    proof {
        assert(s@ =~= dze_diff_text(*clear, *set));
    }
    s
}

/// Where a record for `cpu` goes among the first `to` records of `s`: after
/// the last one whose CPU is not above it.
pub open spec fn cpu_insert_point(s: Seq<CpuRecord>, cpu: usize, to: int) -> int
    decreases to,
{
    if to <= 0 {
        0
    } else if s[to - 1].logical_cpu_id <= cpu {
        to
    } else {
        cpu_insert_point(s, cpu, to - 1)
    }
}

/// The stable sort of `s` by logical CPU (`sort_by_key(|r| r.logical_cpu_id)`).
pub open spec fn sort_by_cpu(s: Seq<CpuRecord>) -> Seq<CpuRecord>
    decreases s.len(),
{
    if s.len() == 0 {
        s
    } else {
        let t = sort_by_cpu(s.drop_last());
        t.insert(cpu_insert_point(t, s.last().logical_cpu_id, t.len() as int), s.last())
    }
}

/// Logical CPUs never decrease along `s`.
pub open spec fn sorted_by_cpu(s: Seq<CpuRecord>) -> bool {
    forall|i: int, j: int| 0 <= i <= j < s.len() ==> s[i].logical_cpu_id <= s[j].logical_cpu_id
}

proof fn lemma_cpu_insert_point(s: Seq<CpuRecord>, cpu: usize, to: int)
    requires
        0 <= to <= s.len(),
    ensures
        0 <= cpu_insert_point(s, cpu, to) <= to,
        forall|k: int| cpu_insert_point(s, cpu, to) <= k < to ==> s[k].logical_cpu_id > cpu,
        cpu_insert_point(s, cpu, to) > 0 ==> s[cpu_insert_point(s, cpu, to) - 1].logical_cpu_id
            <= cpu,
    decreases to,
{
    if to > 0 && s[to - 1].logical_cpu_id > cpu {
        lemma_cpu_insert_point(s, cpu, to - 1);
    }
}

/// Sorting records by CPU leaves them in CPU order.
pub proof fn lemma_sort_by_cpu_sorted(s: Seq<CpuRecord>)
    ensures
        sorted_by_cpu(sort_by_cpu(s)),
        sort_by_cpu(s).len() == s.len(),
    decreases s.len(),
{
    if s.len() > 0 {
        lemma_sort_by_cpu_sorted(s.drop_last());
        let t = sort_by_cpu(s.drop_last());
        let e = s.last();
        let p = cpu_insert_point(t, e.logical_cpu_id, t.len() as int);
        lemma_cpu_insert_point(t, e.logical_cpu_id, t.len() as int);
        let r = t.insert(p, e);
        assert forall|i: int, j: int| 0 <= i <= j < r.len() implies r[i].logical_cpu_id
            <= r[j].logical_cpu_id by {
            if i < p {
                assert(r[i] == t[i]);
                assert(t[i].logical_cpu_id <= t[p - 1].logical_cpu_id);
            }
            if j > p {
                assert(r[j] == t[j - 1]);
            }
            if i > p {
                assert(r[i] == t[i - 1]);
            }
            if j < p {
                assert(r[j] == t[j]);
            }
        }
    }
}

/// Sorting records neither loses nor adds one.
pub proof fn lemma_sort_by_cpu_permutes(s: Seq<CpuRecord>)
    ensures
        sort_by_cpu(s).to_multiset() == s.to_multiset(),
    decreases s.len(),
{
    broadcast use vstd::seq_lib::group_to_multiset_ensures;
    broadcast use vstd::multiset::group_multiset_axioms;

    if s.len() > 0 {
        let t = sort_by_cpu(s.drop_last());
        lemma_sort_by_cpu_permutes(s.drop_last());
        lemma_sort_by_cpu_sorted(s.drop_last());
        let p = cpu_insert_point(t, s.last().logical_cpu_id, t.len() as int);
        lemma_cpu_insert_point(t, s.last().logical_cpu_id, t.len() as int);
        let r = t.insert(p, s.last());
        assert(r.remove(p) =~= t);
        assert(r[p] == s.last());
        assert(r.remove(p).to_multiset() == r.to_multiset().remove(s.last()));
        assert(r.to_multiset().count(s.last()) > 0) by {
            assert(r.contains(s.last()));
        }
        assert(r.to_multiset() =~= t.to_multiset().insert(s.last()));
        assert(s =~= s.drop_last().push(s.last()));
    }
}

fn cpu_insertion_point(v: &Vec<CpuRecord>, cpu: usize) -> (p: usize)
    ensures
        p as int == cpu_insert_point(v@, cpu, v.len() as int),
{
    let mut j = v.len();
    while j > 0 && v[j - 1].logical_cpu_id > cpu
        invariant
            j <= v.len(),
            cpu_insert_point(v@, cpu, j as int) == cpu_insert_point(v@, cpu, v.len() as int),
        decreases j,
    {
        j = j - 1;
    }
    j
}

/// The records sorted by logical CPU, records of one CPU kept in order.
pub fn sort_records(records: &Vec<CpuRecord>) -> (sorted: Vec<CpuRecord>)
    ensures
        sorted@ == sort_by_cpu(records@),
{
    let mut sorted: Vec<CpuRecord> = Vec::new();
    let mut i: usize = 0;
    assert(records@.take(0) =~= Seq::<CpuRecord>::empty());
    while i < records.len()
        invariant
            i <= records@.len(),
            sorted@ == sort_by_cpu(records@.take(i as int)),
        decreases records@.len() - i,
    {
        let r = records[i];
        proof {
            assert(records@.take(i + 1).drop_last() =~= records@.take(i as int));
            assert(records@.take(i + 1).last() == r);
        }
        let p = cpu_insertion_point(&sorted, r.logical_cpu_id);
        proof {
            lemma_cpu_insert_point(sorted@, r.logical_cpu_id, sorted@.len() as int);
        }
        sorted.insert(p, r);
        i = i + 1;
    }
    proof {
        assert(records@.take(i as int) =~= records@);
    }
    sorted
}

/// The first sample of each record.
pub open spec fn raw_values(s: Seq<CpuRecord>) -> Seq<u64> {
    s.map_values(|r: CpuRecord| r.samples@[0])
}

/// The number of distinct first samples among the records.
pub fn unique_raw_count(records: &Vec<CpuRecord>) -> (n: usize)
    ensures
        n == raw_values(records@).to_set().len(),
{
    let mut unique: Vec<u64> = Vec::new();
    let mut i: usize = 0;
    while i < records.len()
        invariant
            i <= records@.len(),
            unique@.no_duplicates(),
            unique@.len() <= i,
            unique@.to_set() == raw_values(records@.take(i as int)).to_set(),
        decreases records@.len() - i,
    {
        let raw = records[i].samples[0];
        let ghost before = unique@;
        let ghost prefix = raw_values(records@.take(i as int));
        let ghost next = raw_values(records@.take(i + 1));
        proof {
            assert(next =~= prefix.push(raw));
        }
        let mut k: usize = 0;
        let mut seen = false;
        while k < unique.len()
            invariant
                k <= unique@.len(),
                unique@ == before,
                seen == exists|m: int| 0 <= m < k && unique@[m] == raw,
            decreases unique@.len() - k,
        {
            if unique[k] == raw {
                seen = true;
            }
            k = k + 1;
        }
        if !seen {
            unique.push(raw);
            proof {
                assert forall|a: int, b: int| 0 <= a < b < unique@.len() implies unique@[a]
                    != unique@[b] by {
                    if b == unique@.len() - 1 {
                        assert(unique@[a] == before[a]);
                    } else {
                        assert(unique@[a] == before[a] && unique@[b] == before[b]);
                    }
                }
            }
        }
        proof {
            assert forall|v: u64| unique@.contains(v) <==> next.contains(v) by {
                if unique@.contains(v) {
                    let m = choose|m: int| 0 <= m < unique@.len() && unique@[m] == v;
                    if m < before.len() {
                        assert(before[m] == v);
                        assert(before.to_set().contains(v));
                        assert(prefix.to_set().contains(v));
                        let q = choose|q: int| 0 <= q < prefix.len() && prefix[q] == v;
                        assert(next[q] == v);
                    } else {
                        assert(next[prefix.len() as int] == v);
                    }
                }
                if next.contains(v) {
                    let q = choose|q: int| 0 <= q < next.len() && next[q] == v;
                    if q < prefix.len() {
                        assert(prefix[q] == v);
                        assert(prefix.to_set().contains(v));
                        assert(before.to_set().contains(v));
                        let m = choose|m: int| 0 <= m < before.len() && before[m] == v;
                        assert(unique@[m] == v);
                    } else {
                        assert(v == raw);
                        if seen {
                            let m = choose|m: int| 0 <= m < before.len() && before[m] == raw;
                            assert(unique@[m] == v);
                        } else {
                            assert(unique@[unique@.len() - 1] == v);
                        }
                    }
                }
            }
            assert(unique@.to_set() =~= next.to_set());
        }
        i = i + 1;
    }
    proof {
        assert(records@.take(i as int) =~= records@);
        unique@.unique_seq_to_set();
    }
    unique.len()
}

/// The records, as JSON objects separated by commas.
pub open spec fn joined_records(s: Seq<CpuRecord>) -> Seq<char>
    decreases s.len(),
{
    if s.len() == 0 {
        Seq::empty()
    } else if s.len() == 1 {
        record_text(s[0])
    } else {
        joined_records(s.drop_last()) + ","@ + record_text(s.last())
    }
}

/// The diff of the MPIDR case: the CPU count, how many distinct MPIDR
/// values were seen, and each CPU's record, in CPU order.
pub open spec fn mpidr_diff_text(cpu_count: usize, records: Seq<CpuRecord>) -> Seq<char> {
    "{\"cpu_count\":"@ + decimal(cpu_count as nat) + ",\"unique_raw_count\":"@ + decimal(
        raw_values(records).to_set().len(),
    ) + ",\"records\":["@ + joined_records(sort_by_cpu(records)) + "]}"@
}

/// Renders the diff of the MPIDR case from the records of every CPU.
pub fn mpidr_diff(cpu_count: usize, records: &Vec<CpuRecord>) -> (s: String)
    ensures
        s@ == mpidr_diff_text(cpu_count, records@),
{
    let sorted = sort_records(records);
    let unique = unique_raw_count(records);
    let mut s = String::new();
    push_str(&mut s, "{\"cpu_count\":");
    push_decimal(&mut s, cpu_count as u64);
    push_str(&mut s, ",\"unique_raw_count\":");
    push_decimal(&mut s, unique as u64);
    push_str(&mut s, ",\"records\":[");
    let ghost head = s@;
    let mut i: usize = 0;
    while i < sorted.len()
        invariant
            i <= sorted@.len(),
            s@ == head + joined_records(sorted@.take(i as int)),
        decreases sorted@.len() - i,
    {
        let ghost before = s@;
        if i > 0 {
            push_str(&mut s, ",");
        }
        let one = decode_record(&sorted[i]);
        push_str(&mut s, one.as_str());
        proof {
            let t = sorted@.take(i + 1);
            assert(t.drop_last() =~= sorted@.take(i as int));
            assert(t.last() == sorted@[i as int]);
            if i == 0 {
                assert(joined_records(sorted@.take(0)) =~= Seq::<char>::empty());
            }
            assert(s@ =~= head + joined_records(t));
        }
        i = i + 1;
    }
    push_str(&mut s, "]}");
    proof {
        assert(sorted@.take(i as int) =~= sorted@);
        assert(s@ =~= mpidr_diff_text(cpu_count, records@));
    }
    s
}

} // verus!
