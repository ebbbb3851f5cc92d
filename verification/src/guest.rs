//! Helpers of the hypervisor guest test cases: result records, register
//! field decoding, probe outcomes and the layout of the probe address space.

use vstd::prelude::*;

use crate::text::{decimal, push_decimal, push_str};

verus! {

/// The marker line printed before a result record.
pub const RESULT_BEGIN_MARKER: &'static str = "AXTEST_RESULT_BEGIN";

/// The marker line printed after a result record.
pub const RESULT_END_MARKER: &'static str = "AXTEST_RESULT_END";

/// The size of a small page.
pub const PAGE_SIZE_4K: usize = 0x1000;

/// `true` or `false`, as `{}` writes a `bool`.
pub open spec fn bool_text(b: bool) -> Seq<char> {
    if b {
        "true"@
    } else {
        "false"@
    }
}

/// The result record of a test case: `{"case_id":"..","status":"..","diff":..}`.
pub open spec fn result_record(case_id: Seq<char>, status: Seq<char>, diff: Seq<char>) -> Seq<char> {
    "{\"case_id\":\""@ + case_id + "\",\"status\":\""@ + status + "\",\"diff\":"@ + diff + "}"@
}

/// The diff of a failed stage: `{"stage":"..","detail":".."}`.
pub open spec fn error_diff_text(stage: Seq<char>, detail: Seq<char>) -> Seq<char> {
    "{\"stage\":\""@ + stage + "\",\"detail\":\""@ + detail + "\"}"@
}

pub fn push_bool(out: &mut String, b: bool)
    ensures
        final(out)@ == old(out)@ + bool_text(b),
{
    if b {
        push_str(out, "true");
    } else {
        push_str(out, "false");
    }
}

/// The line that `emit_json_result` prints between the two markers.
pub fn json_result_record(case_id: &str, status: &str, diff_json: &str) -> (r: String)
    ensures
        r@ == result_record(case_id@, status@, diff_json@),
{
    let mut r = String::new();
    push_str(&mut r, "{\"case_id\":\"");
    push_str(&mut r, case_id);
    push_str(&mut r, "\",\"status\":\"");
    push_str(&mut r, status);
    push_str(&mut r, "\",\"diff\":");
    push_str(&mut r, diff_json);
    push_str(&mut r, "}");
    r
}

/// The diff that `emit_error` reports for a failed stage.
pub fn error_diff(stage: &str, detail: &str) -> (r: String)
    ensures
        r@ == error_diff_text(stage@, detail@),
{
    let mut r = String::new();
    push_str(&mut r, "{\"stage\":\"");
    push_str(&mut r, stage);
    push_str(&mut r, "\",\"detail\":\"");
    push_str(&mut r, detail);
    push_str(&mut r, "\"}");
    r
}

/// The exception level that a `CurrentEL` value reports (bits 3:2).
pub fn decoded_el(raw: u64) -> (el: u64)
    ensures
        el == (raw >> 2u64) & 3u64,
        el <= 3,
{
    let el = (raw >> 2) & 0b11;
    assert(((raw >> 2u64) & 3u64) <= 3) by (bit_vector);
    el
}

/// `SCTLR_EL1` with the control bit `bit` set or cleared; every other bit
/// keeps its value.
pub fn sctlr_configured(original: u64, bit: u64, enable: bool) -> (v: u64)
    ensures
        v == if enable {
            original | bit
        } else {
            original & !bit
        },
        v & !bit == original & !bit,
        enable ==> v & bit == bit,
        !enable ==> v & bit == 0,
{
    if enable {
        let v = original | bit;
        assert(v & !bit == original & !bit && v & bit == bit) by (bit_vector)
            requires
                v == original | bit,
        ;
        v
    } else {
        let v = original & !bit;
        assert(v & !bit == original & !bit && v & bit == 0) by (bit_vector)
            requires
                v == original & !bit,
        ;
        v
    }
}

/// The affinity fields of an `MPIDR_EL1` value and its MT and U bits.
pub struct MpidrFields {
    pub aff0: u64,
    pub aff1: u64,
    pub aff2: u64,
    pub aff3: u64,
    pub mt: bool,
    pub u: bool,
}

/// Splits an `MPIDR_EL1` value into its fields.
pub fn mpidr_fields(raw: u64) -> (f: MpidrFields)
    ensures
        f.aff0 == raw & 0xffu64,
        f.aff1 == (raw >> 8u64) & 0xffu64,
        f.aff2 == (raw >> 16u64) & 0xffu64,
        f.aff3 == (raw >> 32u64) & 0xffu64,
        f.mt == ((raw >> 24u64) & 1u64 != 0),
        f.u == ((raw >> 30u64) & 1u64 != 0),
{
    MpidrFields {
        aff0: raw & 0xff,
        aff1: (raw >> 8) & 0xff,
        aff2: (raw >> 16) & 0xff,
        aff3: (raw >> 32) & 0xff,
        mt: ((raw >> 24) & 0x1) != 0,
        u: ((raw >> 30) & 0x1) != 0,
    }
}

/// What one CPU reported in the MPIDR case.
#[derive(Clone, Copy)]
pub struct CpuRecord {
    pub logical_cpu_id: usize,
    pub observed_cpu_id: usize,
    pub samples: [u64; 3],
}

/// The JSON object that describes one CPU's MPIDR samples.
pub open spec fn record_text(r: CpuRecord) -> Seq<char> {
    let raw = r.samples@[0];
    let all_equal = r.samples@[1] == raw && r.samples@[2] == raw;
    "{\"logical_cpu_id\":"@ + decimal(r.logical_cpu_id as nat) + ",\"observed_cpu_id\":"@
        + decimal(r.observed_cpu_id as nat) + ",\"samples\":["@ + decimal(raw as nat) + ","@
        + decimal(r.samples@[1] as nat) + ","@ + decimal(r.samples@[2] as nat)
        + "],\"all_equal\":"@ + bool_text(all_equal) + ",\"raw\":"@ + decimal(raw as nat)
        + ",\"aff0\":"@ + decimal((raw & 0xffu64) as nat) + ",\"aff1\":"@ + decimal(
        ((raw >> 8u64) & 0xffu64) as nat,
    ) + ",\"aff2\":"@ + decimal(((raw >> 16u64) & 0xffu64) as nat) + ",\"aff3\":"@ + decimal(
        ((raw >> 32u64) & 0xffu64) as nat,
    ) + ",\"mt\":"@ + bool_text((raw >> 24u64) & 1u64 != 0) + ",\"u\":"@ + bool_text(
        (raw >> 30u64) & 1u64 != 0,
    ) + "}"@
}

/// Renders one CPU's MPIDR record as JSON, decoding the first sample.
pub fn decode_record(record: &CpuRecord) -> (s: String)
    ensures
        s@ == record_text(*record),
{
    let raw = record.samples[0];
    let f = mpidr_fields(raw);
    let all_equal = record.samples[1] == raw && record.samples[2] == raw;
    let mut s = String::new();
    push_str(&mut s, "{\"logical_cpu_id\":");
    push_decimal(&mut s, record.logical_cpu_id as u64);
    push_str(&mut s, ",\"observed_cpu_id\":");
    push_decimal(&mut s, record.observed_cpu_id as u64);
    push_str(&mut s, ",\"samples\":[");
    push_decimal(&mut s, raw);
    push_str(&mut s, ",");
    push_decimal(&mut s, record.samples[1]);
    push_str(&mut s, ",");
    push_decimal(&mut s, record.samples[2]);
    push_str(&mut s, "],\"all_equal\":");
    push_bool(&mut s, all_equal);
    push_str(&mut s, ",\"raw\":");
    push_decimal(&mut s, raw);
    push_str(&mut s, ",\"aff0\":");
    push_decimal(&mut s, f.aff0);
    push_str(&mut s, ",\"aff1\":");
    push_decimal(&mut s, f.aff1);
    push_str(&mut s, ",\"aff2\":");
    push_decimal(&mut s, f.aff2);
    push_str(&mut s, ",\"aff3\":");
    push_decimal(&mut s, f.aff3);
    push_str(&mut s, ",\"mt\":");
    push_bool(&mut s, f.mt);
    push_str(&mut s, ",\"u\":");
    push_bool(&mut s, f.u);
    push_str(&mut s, "}");
    s
}

/// What the DC ZVA probe observed under one `SCTLR_EL1.DZE` setting.
#[derive(Clone, Copy)]
pub struct DzeOutcome {
    pub trapped: bool,
    pub phase: u64,
    pub dzp: bool,
    pub buffer_all_zero: bool,
    pub buffer_unchanged: bool,
}

/// Summarises a DC ZVA probe run: `DZP` is bit 4 of `DCZID_EL0`; the probe
/// buffer is checked for being all zero and for still holding `pattern`.
pub fn dze_outcome(trapped: bool, dczid_raw: u64, phase: u64, buffer: &[u8], pattern: u8) -> (o: DzeOutcome)
    ensures
        o.trapped == trapped,
        o.phase == phase,
        o.dzp == ((dczid_raw >> 4u64) & 1u64 != 0),
        o.buffer_all_zero == forall|i: int| 0 <= i < buffer@.len() ==> buffer@[i] == 0,
        o.buffer_unchanged == forall|i: int| 0 <= i < buffer@.len() ==> buffer@[i] == pattern,
{
    let mut all_zero = true;
    let mut unchanged = true;
    let mut i: usize = 0;
    while i < buffer.len()
        invariant
            i <= buffer@.len(),
            all_zero == forall|k: int| 0 <= k < i ==> buffer@[k] == 0,
            unchanged == forall|k: int| 0 <= k < i ==> buffer@[k] == pattern,
        decreases buffer@.len() - i,
    {
        if buffer[i] != 0 {
            all_zero = false;
        }
        if buffer[i] != pattern {
            unchanged = false;
        }
        i = i + 1;
    }
    DzeOutcome {
        trapped,
        phase,
        dzp: ((dczid_raw >> 4) & 1) != 0,
        buffer_all_zero: all_zero,
        buffer_unchanged: unchanged,
    }
}

/// The cache lines that `sync_executable_range` cleans and invalidates:
/// from `start` rounded down to 64 bytes up to `start + size` rounded up.
pub fn cache_line_range(start: usize, size: usize) -> (r: (usize, usize))
    requires
        start + size + 63 <= usize::MAX,
    ensures
        r.0 == start & !63usize,
        r.1 == (start + size + 63) as usize & !63usize,
        r.0 <= start,
        start + size <= r.1,
        r.0 % 64 == 0,
        r.1 % 64 == 0,
{
    let end_raw = start + size + 63;
    let lo = start & !63usize;
    let hi = end_raw & !63usize;
    assert(lo <= start && lo % 64 == 0) by (bit_vector)
        requires
            lo == start & !63usize,
    ;
    assert(hi + 63 >= end_raw && hi % 64 == 0) by (bit_vector)
        requires
            hi == end_raw & !63usize,
    ;
    (lo, hi)
}

/// The greatest of `base` and the entries of `s`.
pub open spec fn max_from(base: int, s: Seq<usize>) -> int
    decreases s.len(),
{
    if s.len() == 0 {
        base
    } else {
        let m = max_from(base, s.drop_last());
        if s.last() > m {
            s.last() as int
        } else {
            m
        }
    }
}

/// One page past each start.
pub open spec fn page_ends(starts: Seq<usize>) -> Seq<usize> {
    starts.map_values(|p: usize| (p + 0x1000) as usize)
}

/// The end of the probe address space: one page past the highest of the
/// code, shared, stack and extra pages.
pub fn user_aspace_end(
    user_code_start: usize,
    user_shared_start: usize,
    user_stack_start: usize,
    extra_starts: &[usize],
) -> (end: usize)
    requires
        user_code_start + PAGE_SIZE_4K <= usize::MAX,
        user_shared_start + PAGE_SIZE_4K <= usize::MAX,
        user_stack_start + PAGE_SIZE_4K <= usize::MAX,
        forall|i: int| 0 <= i < extra_starts@.len() ==> extra_starts@[i] + PAGE_SIZE_4K <= usize::MAX,
    ensures
        end == max_from(
            max_from(
                user_stack_start + 0x1000,
                seq![(user_shared_start + 0x1000) as usize, (user_code_start + 0x1000) as usize],
            ),
            page_ends(extra_starts@),
        ),
{
    let ghost pages = page_ends(extra_starts@);
    let mut end = user_stack_start + PAGE_SIZE_4K;
    let shared_end = user_shared_start + PAGE_SIZE_4K;
    let code_end = user_code_start + PAGE_SIZE_4K;
    proof {
        let two = seq![shared_end, code_end];
        assert(two.drop_last() =~= seq![shared_end]);
        assert(seq![shared_end].drop_last() =~= Seq::<usize>::empty());
    }
    if shared_end > end {
        end = shared_end;
    }
    if code_end > end {
        end = code_end;
    }
    let ghost base = end as int;
    proof {
        let b0 = (user_stack_start + 0x1000) as int;
        let one = seq![shared_end];
        let two = seq![shared_end, code_end];
        assert(one.drop_last() =~= Seq::<usize>::empty());
        assert(max_from(b0, one.drop_last()) == b0);
        assert(max_from(b0, one) == if shared_end > b0 { shared_end as int } else { b0 });
        assert(two.drop_last() =~= one);
        assert(max_from(b0, two) == if code_end > max_from(b0, one) {
            code_end as int
        } else {
            max_from(b0, one)
        });
    }
    assert(base == max_from(
        user_stack_start + 0x1000,
        seq![(user_shared_start + 0x1000) as usize, (user_code_start + 0x1000) as usize],
    ));
    let mut i: usize = 0;
    while i < extra_starts.len()
        invariant
            i <= extra_starts@.len(),
            pages == page_ends(extra_starts@),
            forall|k: int| 0 <= k < extra_starts@.len() ==> extra_starts@[k] + 0x1000 <= usize::MAX,
            end as int == max_from(base, pages.take(i as int)),
        decreases extra_starts@.len() - i,
    {
        let page_end = extra_starts[i] + PAGE_SIZE_4K;
        proof {
            assert(pages.take(i + 1).drop_last() =~= pages.take(i as int));
            assert(pages.take(i + 1).last() == page_end);
        }
        if page_end > end {
            end = page_end;
        }
        i = i + 1;
    }
    proof {
        assert(pages.take(i as int) =~= pages);
    }
    assert(end as int == max_from(base, pages));
    end
}

proof fn lemma_max_from_bounds(base: int, s: Seq<usize>)
    ensures
        max_from(base, s) >= base,
        forall|i: int| 0 <= i < s.len() ==> max_from(base, s) >= s[i],
    decreases s.len(),
{
    if s.len() > 0 {
        lemma_max_from_bounds(base, s.drop_last());
        assert forall|i: int| 0 <= i < s.len() implies max_from(base, s) >= s[i] by {
            if i < s.len() - 1 {
                assert(s[i] == s.drop_last()[i]);
            }
        }
    }
}

/// The access a page of the probe address space is given.
#[derive(Clone, Copy, PartialEq, Eq, Debug, Structural)]
pub struct PageAccess {
    pub read: bool,
    pub write: bool,
    pub execute: bool,
    pub user: bool,
}

/// The step of building the probe address space that an error report
/// names.
#[derive(Clone, Copy, PartialEq, Eq, Debug, Structural)]
pub enum AspaceStage {
    CreateUserAspace,
    MapUserCode,
    MapSharedPage,
    MapUserStack,
    MapExtraPage,
    CopyUserCode,
    InitSharedPage,
    InitExtraPage,
    ProtectUserCode,
}

impl AspaceStage {
    /// The name of the stage in an error report.
    pub fn as_str(self) -> (s: &'static str)
        ensures
            s@ == aspace_stage_name(self),
    {
        match self {
            AspaceStage::CreateUserAspace => "create_user_aspace",
            AspaceStage::MapUserCode => "map_user_code",
            AspaceStage::MapSharedPage => "map_shared_page",
            AspaceStage::MapUserStack => "map_user_stack",
            AspaceStage::MapExtraPage => "map_extra_page",
            AspaceStage::CopyUserCode => "copy_user_code",
            AspaceStage::InitSharedPage => "init_shared_page",
            AspaceStage::InitExtraPage => "init_extra_page",
            AspaceStage::ProtectUserCode => "protect_user_code",
        }
    }
}

/// The name of a stage in an error report.
pub open spec fn aspace_stage_name(s: AspaceStage) -> Seq<char> {
    match s {
        AspaceStage::CreateUserAspace => "create_user_aspace"@,
        AspaceStage::MapUserCode => "map_user_code"@,
        AspaceStage::MapSharedPage => "map_shared_page"@,
        AspaceStage::MapUserStack => "map_user_stack"@,
        AspaceStage::MapExtraPage => "map_extra_page"@,
        AspaceStage::CopyUserCode => "copy_user_code"@,
        AspaceStage::InitSharedPage => "init_shared_page"@,
        AspaceStage::InitExtraPage => "init_extra_page"@,
        AspaceStage::ProtectUserCode => "protect_user_code"@,
    }
}

/// What bytes a copy step writes.
#[derive(Clone, Copy, PartialEq, Eq, Debug, Structural)]
pub enum PageSource {
    /// The probe's code.
    Code,
    /// The initial contents of the shared page.
    SharedInit,
    /// The contents of the extra page with this index.
    Extra(usize),
}

/// One step of building the probe address space.
#[derive(Clone, Copy, PartialEq, Eq, Debug, Structural)]
pub enum AspaceStep {
    /// Map and zero one page at `start`.
    MapPage { start: usize, access: PageAccess, stage: AspaceStage },
    /// Copy bytes to `start`.
    Write { start: usize, source: PageSource, stage: AspaceStage },
    /// Change the access of the page at `start`.
    Protect { start: usize, access: PageAccess, stage: AspaceStage },
}

/// Code pages are mapped writable first, to copy the code in.
pub open spec fn code_rw() -> PageAccess {
    PageAccess { read: true, write: true, execute: true, user: true }
}

/// Code pages run read-only.
pub open spec fn code_rx() -> PageAccess {
    PageAccess { read: true, write: false, execute: true, user: true }
}

/// Data pages: shared page, stack and extra pages.
pub open spec fn data_rw() -> PageAccess {
    PageAccess { read: true, write: true, execute: false, user: true }
}

/// The steps that build the probe address space, in order: map the code,
/// shared, stack and extra pages; copy the code, the shared page's initial
/// contents and each extra page's contents; make the code read-only.
pub open spec fn aspace_steps(code: usize, shared: usize, stack: usize, extras: Seq<usize>) -> Seq<
    AspaceStep,
> {
    seq![
        AspaceStep::MapPage { start: code, access: code_rw(), stage: AspaceStage::MapUserCode },
        AspaceStep::MapPage { start: shared, access: data_rw(), stage: AspaceStage::MapSharedPage },
        AspaceStep::MapPage { start: stack, access: data_rw(), stage: AspaceStage::MapUserStack },
    ] + extras.map_values(
        |p: usize| AspaceStep::MapPage { start: p, access: data_rw(), stage: AspaceStage::MapExtraPage },
    ) + seq![
        AspaceStep::Write { start: code, source: PageSource::Code, stage: AspaceStage::CopyUserCode },
        AspaceStep::Write {
            start: shared,
            source: PageSource::SharedInit,
            stage: AspaceStage::InitSharedPage,
        },
    ] + Seq::new(
        extras.len(),
        |k: int|
            AspaceStep::Write {
                start: extras[k],
                source: PageSource::Extra(k as usize),
                stage: AspaceStage::InitExtraPage,
            },
    ) + seq![
        AspaceStep::Protect { start: code, access: code_rx(), stage: AspaceStage::ProtectUserCode },
    ]
}

/// How the probe address space is laid out and built.
pub struct AspacePlan {
    /// Where the address space starts: the code page.
    pub base: usize,
    /// Its size: up to one page past the highest page.
    pub size: usize,
    /// The building steps, in order; after them the code range is synced
    /// for execution.
    pub steps: Vec<AspaceStep>,
    /// The initial user stack pointer: the top of the stack page.
    pub stack_top: usize,
    /// Where the shared page starts.
    pub shared_start: usize,
}

/// The plan of `build_user_aspace`: an address space from the code page up
/// to one page past the highest page, built by `aspace_steps`; each step's
/// stage names it when it fails (creating the space itself fails as
/// `CreateUserAspace`).
pub fn user_aspace_plan(code: usize, shared: usize, stack: usize, extras: &[usize]) -> (plan: AspacePlan)
    requires
        code + PAGE_SIZE_4K <= usize::MAX,
        shared + PAGE_SIZE_4K <= usize::MAX,
        stack + PAGE_SIZE_4K <= usize::MAX,
        forall|i: int| 0 <= i < extras@.len() ==> extras@[i] + PAGE_SIZE_4K <= usize::MAX,
    ensures
        plan.base == code,
        plan.base + plan.size == max_from(
            max_from(stack + 0x1000, seq![(shared + 0x1000) as usize, (code + 0x1000) as usize]),
            page_ends(extras@),
        ),
        plan.steps@ == aspace_steps(code, shared, stack, extras@),
        plan.stack_top == stack + 0x1000,
        plan.shared_start == shared,
{
    let end = user_aspace_end(code, shared, stack, extras);
    proof {
        let inner = max_from(
            stack + 0x1000,
            seq![(shared + 0x1000) as usize, (code + 0x1000) as usize],
        );
        lemma_max_from_bounds(stack + 0x1000, seq![(shared + 0x1000) as usize, (code + 0x1000) as usize]);
        assert(seq![(shared + 0x1000) as usize, (code + 0x1000) as usize][1] == code + 0x1000);
        lemma_max_from_bounds(inner, page_ends(extras@));
    }
    let rw = PageAccess { read: true, write: true, execute: true, user: true };
    let rx = PageAccess { read: true, write: false, execute: true, user: true };
    let data = PageAccess { read: true, write: true, execute: false, user: true };
    let mut steps: Vec<AspaceStep> = Vec::new();
    steps.push(AspaceStep::MapPage { start: code, access: rw, stage: AspaceStage::MapUserCode });
    steps.push(AspaceStep::MapPage { start: shared, access: data, stage: AspaceStage::MapSharedPage });
    steps.push(AspaceStep::MapPage { start: stack, access: data, stage: AspaceStage::MapUserStack });
    let ghost head = steps@;
    let ghost maps = extras@.map_values(
        |p: usize| AspaceStep::MapPage { start: p, access: data_rw(), stage: AspaceStage::MapExtraPage },
    );
    let mut i: usize = 0;
    while i < extras.len()
        invariant
            i <= extras@.len(),
            data == data_rw(),
            maps == extras@.map_values(
                |p: usize| AspaceStep::MapPage { start: p, access: data_rw(), stage: AspaceStage::MapExtraPage },
            ),
            steps@ == head + maps.take(i as int),
        decreases extras@.len() - i,
    {
        steps.push(AspaceStep::MapPage { start: extras[i], access: data, stage: AspaceStage::MapExtraPage });
        proof {
            assert(maps[i as int] == AspaceStep::MapPage { start: extras@[i as int], access: data_rw(), stage: AspaceStage::MapExtraPage });
            assert(maps.take(i + 1) =~= maps.take(i as int).push(maps[i as int]));
        }
        i = i + 1;
    }
    proof {
        assert(maps.take(i as int) =~= maps);
    }
    steps.push(AspaceStep::Write { start: code, source: PageSource::Code, stage: AspaceStage::CopyUserCode });
    steps.push(AspaceStep::Write { start: shared, source: PageSource::SharedInit, stage: AspaceStage::InitSharedPage });
    let ghost mid = steps@;
    let ghost writes = Seq::new(
        extras@.len(),
        |k: int|
            AspaceStep::Write {
                start: extras@[k],
                source: PageSource::Extra(k as usize),
                stage: AspaceStage::InitExtraPage,
            },
    );
    let mut j: usize = 0;
    while j < extras.len()
        invariant
            j <= extras@.len(),
            writes.len() == extras@.len(),
            writes == Seq::new(
                extras@.len(),
                |k: int|
                    AspaceStep::Write {
                        start: extras@[k],
                        source: PageSource::Extra(k as usize),
                        stage: AspaceStage::InitExtraPage,
                    },
            ),
            steps@ == mid + writes.take(j as int),
        decreases extras@.len() - j,
    {
        steps.push(AspaceStep::Write { start: extras[j], source: PageSource::Extra(j), stage: AspaceStage::InitExtraPage });
        proof {
            assert(writes.take(j + 1) =~= writes.take(j as int).push(writes[j as int]));
        }
        j = j + 1;
    }
    proof {
        assert(writes.take(j as int) =~= writes);
    }
    steps.push(AspaceStep::Protect { start: code, access: rx, stage: AspaceStage::ProtectUserCode });
    proof {
        assert(steps@ =~= aspace_steps(code, shared, stack, extras@));
    }
    AspacePlan { base: code, size: end - code, steps, stack_top: stack + PAGE_SIZE_4K, shared_start: shared }
}

/// The user address where the CurrentEL probe resumes after its fault: the
/// label's offset from the payload entry, added to where the payload was
/// copied.
pub fn resume_address(user_code_start: usize, entry: usize, label: usize) -> (a: usize)
    requires
        user_code_start + (if label > entry { label - entry } else { 0 }) <= usize::MAX,
    ensures
        a == user_code_start + (if label > entry { label - entry } else { 0 }),
{
    user_code_start + label.saturating_sub(entry)
}

/// Why the CPU came back from user mode, as the probe cases report it.
pub enum ReturnReason {
    Syscall,
    Interrupt,
    Unknown,
    /// A page fault at `addr`, with the access flags as printed by `{:?}`.
    PageFault { addr: usize, flags: String },
    /// An exception of the printed kind; on AArch64 also its ESR and FAR.
    Exception { kind: String, syndrome: Option<(u64, u64)> },
}

/// The JSON value that reports a return reason.
pub open spec fn return_reason_text(r: ReturnReason) -> Seq<char> {
    match r {
        ReturnReason::Syscall => "\"syscall\""@,
        ReturnReason::Interrupt => "\"interrupt\""@,
        ReturnReason::Unknown => "\"unknown\""@,
        ReturnReason::PageFault { addr, flags } => "{\"kind\":\"page_fault\",\"addr\":"@ + decimal(
            addr as nat,
        ) + ",\"flags\":\""@ + flags@ + "\"}"@,
        ReturnReason::Exception { kind, syndrome } => match syndrome {
            Some((esr, far)) => "{\"kind\":\"exception\",\"exception_kind\":\""@ + kind@
                + "\",\"esr\":"@ + decimal(esr as nat) + ",\"far\":"@ + decimal(far as nat) + "}"@,
            None => "{\"kind\":\"exception\",\"exception_kind\":\""@ + kind@ + "\"}"@,
        },
    }
}

/// Renders a return reason as JSON.
pub fn format_return_reason(reason: &ReturnReason) -> (s: String)
    ensures
        s@ == return_reason_text(*reason),
{
    let mut s = String::new();
    match reason {
        ReturnReason::Syscall => push_str(&mut s, "\"syscall\""),
        ReturnReason::Interrupt => push_str(&mut s, "\"interrupt\""),
        ReturnReason::Unknown => push_str(&mut s, "\"unknown\""),
        ReturnReason::PageFault { addr, flags } => {
            push_str(&mut s, "{\"kind\":\"page_fault\",\"addr\":");
            push_decimal(&mut s, *addr as u64);
            push_str(&mut s, ",\"flags\":\"");
            push_str(&mut s, flags.as_str());
            push_str(&mut s, "\"}");
        },
        ReturnReason::Exception { kind, syndrome } => {
            push_str(&mut s, "{\"kind\":\"exception\",\"exception_kind\":\"");
            push_str(&mut s, kind.as_str());
            match syndrome {
                Some((esr, far)) => {
                    push_str(&mut s, "\",\"esr\":");
                    push_decimal(&mut s, *esr);
                    push_str(&mut s, ",\"far\":");
                    push_decimal(&mut s, *far);
                    push_str(&mut s, "}");
                },
                None => push_str(&mut s, "\"}"),
            }
        },
    }
    s
}

} // verus!
