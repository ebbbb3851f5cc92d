//! Bookkeeping of the task-concurrency stress test: worker stage words,
//! affinity schedules, critical-section plans and the progress watchdog.

use vstd::prelude::*;

use crate::text::{decimal, push_decimal, push_str};

verus! {

/// Bit position of the round number inside a worker state word.
pub const STAGE_SHIFT: usize = 16;

/// Bit position of the stage detail inside a worker state word.
pub const DETAIL_SHIFT: usize = 8;

/// The stage a stress worker has reached inside one round.
#[derive(Clone, Copy, PartialEq, Eq, Debug, Structural)]
pub enum WorkerStage {
    Init,
    Armed,
    WaitStart,
    FirstCritical,
    Midway,
    WaitRelease,
    SecondCritical,
    Finished,
}

/// The numeric code of a stage (its position in the round).
pub open spec fn stage_code(stage: WorkerStage) -> usize {
    match stage {
        WorkerStage::Init => 0,
        WorkerStage::Armed => 1,
        WorkerStage::WaitStart => 2,
        WorkerStage::FirstCritical => 3,
        WorkerStage::Midway => 4,
        WorkerStage::WaitRelease => 5,
        WorkerStage::SecondCritical => 6,
        WorkerStage::Finished => 7,
    }
}

/// The stage that a code names; unknown codes read as `Init`.
pub open spec fn stage_of(value: usize) -> WorkerStage {
    if value == 1 {
        WorkerStage::Armed
    } else if value == 2 {
        WorkerStage::WaitStart
    } else if value == 3 {
        WorkerStage::FirstCritical
    } else if value == 4 {
        WorkerStage::Midway
    } else if value == 5 {
        WorkerStage::WaitRelease
    } else if value == 6 {
        WorkerStage::SecondCritical
    } else if value == 7 {
        WorkerStage::Finished
    } else {
        WorkerStage::Init
    }
}

/// The printable name of a stage.
pub open spec fn stage_name(stage: WorkerStage) -> Seq<char> {
    match stage {
        WorkerStage::Init => seq!['i', 'n', 'i', 't'],
        WorkerStage::Armed => seq!['a', 'r', 'm', 'e', 'd'],
        WorkerStage::WaitStart => seq!['w', 'a', 'i', 't', '_', 's', 't', 'a', 'r', 't'],
        WorkerStage::FirstCritical => seq![
            'f', 'i', 'r', 's', 't', '_', 'c', 'r', 'i', 't', 'i', 'c', 'a', 'l',
        ],
        WorkerStage::Midway => seq!['m', 'i', 'd', 'w', 'a', 'y'],
        WorkerStage::WaitRelease => seq![
            'w', 'a', 'i', 't', '_', 'r', 'e', 'l', 'e', 'a', 's', 'e',
        ],
        WorkerStage::SecondCritical => seq![
            's', 'e', 'c', 'o', 'n', 'd', '_', 'c', 'r', 'i', 't', 'i', 'c', 'a', 'l',
        ],
        WorkerStage::Finished => seq!['f', 'i', 'n', 'i', 's', 'h', 'e', 'd'],
    }
}

/// The word that records `round`, `stage` and `detail` for one worker.
pub open spec fn state_word(round: usize, stage: WorkerStage, detail: usize) -> usize {
    (round << 16usize) | (detail << 8usize) | stage_code(stage)
}

impl WorkerStage {
    /// Reads a stage back from its code; codes above 7 give `Init`.
    pub fn from_usize(value: usize) -> (stage: Self)
        ensures
            stage == stage_of(value),
    {
        match value {
            0 => WorkerStage::Init,
            1 => WorkerStage::Armed,
            2 => WorkerStage::WaitStart,
            3 => WorkerStage::FirstCritical,
            4 => WorkerStage::Midway,
            5 => WorkerStage::WaitRelease,
            6 => WorkerStage::SecondCritical,
            7 => WorkerStage::Finished,
            _ => WorkerStage::Init,
        }
    }

    /// The numeric code of this stage.
    pub fn as_usize(self) -> (code: usize)
        ensures
            code == stage_code(self),
    {
        match self {
            WorkerStage::Init => 0,
            WorkerStage::Armed => 1,
            WorkerStage::WaitStart => 2,
            WorkerStage::FirstCritical => 3,
            WorkerStage::Midway => 4,
            WorkerStage::WaitRelease => 5,
            WorkerStage::SecondCritical => 6,
            WorkerStage::Finished => 7,
        }
    }

    /// The name used for this stage in stuck-worker dumps.
    pub fn as_str(self) -> (name: &'static str)
        ensures
            name@ == stage_name(self),
    {
        proof {
            reveal_strlit("init");
            reveal_strlit("armed");
            reveal_strlit("wait_start");
            reveal_strlit("first_critical");
            reveal_strlit("midway");
            reveal_strlit("wait_release");
            reveal_strlit("second_critical");
            reveal_strlit("finished");
        }
        match self {
            WorkerStage::Init => "init",
            WorkerStage::Armed => "armed",
            WorkerStage::WaitStart => "wait_start",
            WorkerStage::FirstCritical => "first_critical",
            WorkerStage::Midway => "midway",
            WorkerStage::WaitRelease => "wait_release",
            WorkerStage::SecondCritical => "second_critical",
            WorkerStage::Finished => "finished",
        }
    }
}

/// Reading a stage back from its code gives the stage.
pub proof fn lemma_stage_code_round_trip(stage: WorkerStage)
    ensures
        stage_of(stage_code(stage)) == stage,
        stage_code(stage) < 8,
{
}

/// Packs round, stage and detail into one state word.
pub fn encode_worker_state(round: usize, stage: WorkerStage, detail: usize) -> (word: usize)
    ensures
        word == state_word(round, stage, detail),
{
    (round << STAGE_SHIFT) | (detail << DETAIL_SHIFT) | stage.as_usize()
}

/// Unpacks a state word into round, stage and detail.
pub fn decode_worker_state(state: usize) -> (parts: (usize, WorkerStage, usize))
    ensures
        parts.0 == state >> 16usize,
        parts.1 == stage_of(state & 0xffusize),
        parts.2 == (state >> 8usize) & 0xffusize,
{
    let round = state >> STAGE_SHIFT;
    let detail = (state >> DETAIL_SHIFT) & 0xff;
    let stage = WorkerStage::from_usize(state & 0xff);
    (round, stage, detail)
}

/// Decoding a recorded state word gives back the round, stage and detail that
/// were recorded, as long as the detail fits in its byte and the round keeps
/// all its bits after the shift.
pub proof fn lemma_decode_encode(round: usize, stage: WorkerStage, detail: usize)
    requires
        detail <= 0xff,
        (round << 16usize) >> 16usize == round,
    ensures
        state_word(round, stage, detail) >> 16usize == round,
        stage_of(state_word(round, stage, detail) & 0xffusize) == stage,
        (state_word(round, stage, detail) >> 8usize) & 0xffusize == detail,
{
    let c = stage_code(stage);
    assert(c < 8);
    assert(((round << 16usize) | (detail << 8usize) | c) >> 16usize == round) by (bit_vector)
        requires
            detail <= 0xff,
            c < 8,
            (round << 16usize) >> 16usize == round,
    ;
    assert(((round << 16usize) | (detail << 8usize) | c) & 0xffusize == c) by (bit_vector)
        requires
            detail <= 0xff,
            c < 8,
    ;
    assert((((round << 16usize) | (detail << 8usize) | c) >> 8usize) & 0xffusize == detail)
        by (bit_vector)
        requires
            detail <= 0xff,
            c < 8,
    ;
}

/// The word a worker records: its detail is capped at 255 so that it stays
/// in its byte.
pub fn worker_state_word(round: usize, stage: WorkerStage, detail: usize) -> (word: usize)
    ensures
        word == state_word(round, stage, if detail < 0xff { detail } else { 0xff }),
{
    let capped = if detail < 0xff {
        detail
    } else {
        0xff
    };
    encode_worker_state(round, stage, capped)
}

/// A worker is stuck for a dump at `round` and `expected` when its recorded
/// word is behind: an earlier round, or the same round at an earlier stage.
pub open spec fn is_stuck(word: usize, round: usize, expected: WorkerStage) -> bool {
    let worker_round = word >> 16usize;
    worker_round < round || (worker_round == round && stage_code(stage_of(word & 0xffusize))
        < stage_code(expected))
}

/// The workers that a stuck dump lists, in worker order.
pub fn stuck_workers(states: &[usize], round: usize, expected: WorkerStage) -> (r: Vec<usize>)
    ensures
        forall|k: int| 0 <= k < r@.len() ==> 0 <= r@[k] < states@.len() && is_stuck(
            states@[r@[k] as int],
            round,
            expected,
        ),
        forall|k: int, l: int| 0 <= k < l < r@.len() ==> r@[k] < r@[l],
        forall|w: int|
            0 <= w < states@.len() && is_stuck(#[trigger] states@[w], round, expected)
                ==> r@.contains(w as usize),
{
    let mut r: Vec<usize> = Vec::new();
    let mut w: usize = 0;
    while w < states.len()
        invariant
            w <= states@.len(),
            forall|k: int| 0 <= k < r@.len() ==> 0 <= r@[k] < w && is_stuck(
                states@[r@[k] as int],
                round,
                expected,
            ),
            forall|k: int, l: int| 0 <= k < l < r@.len() ==> r@[k] < r@[l],
            forall|v: int| 0 <= v < w && is_stuck(#[trigger] states@[v], round, expected) ==> r@.contains(
                v as usize,
            ),
        decreases states@.len() - w,
    {
        let (worker_round, stage, _detail) = decode_worker_state(states[w]);
        if worker_round < round || (worker_round == round && stage.as_usize()
            < expected.as_usize()) {
            let ghost before = r@;
            r.push(w);
            proof {
                assert forall|v: int| 0 <= v < w + 1 && is_stuck(
                    #[trigger] states@[v],
                    round,
                    expected,
                ) implies r@.contains(v as usize) by {
                    if v < w {
                        assert(before.contains(v as usize));
                        let k = choose|k: int| 0 <= k < before.len() && before[k] == v as usize;
                        assert(r@[k] == v as usize);
                    } else {
                        assert(r@[before.len() as int] == w);
                    }
                }
            }
        }
        w = w + 1;
    }
    r
}

/// Every CPU below `cpu_num`.
pub fn cpu_mask_all(cpu_num: usize) -> (mask: Vec<usize>)
    ensures
        mask@.len() == cpu_num,
        forall|k: int| 0 <= k < cpu_num ==> mask@[k] == k,
{
    let mut mask: Vec<usize> = Vec::new();
    let mut cpu: usize = 0;
    while cpu < cpu_num
        invariant
            cpu <= cpu_num,
            mask@.len() == cpu,
            forall|k: int| 0 <= k < cpu ==> mask@[k] == k,
        decreases cpu_num - cpu,
    {
        mask.push(cpu);
        cpu = cpu + 1;
    }
    mask
}

/// Every CPU below `cpu_num` except `exclude`; just `exclude` when no other
/// CPU is left.
pub fn cpu_mask_excluding(cpu_num: usize, exclude: usize) -> (mask: Vec<usize>)
    ensures
        forall|c: usize| #[trigger] mask@.contains(c) <==> if cpu_num == 0 || (cpu_num == 1
            && exclude == 0) {
            c == exclude
        } else {
            c < cpu_num && c != exclude
        },
        forall|k: int, l: int| 0 <= k < l < mask@.len() ==> mask@[k] < mask@[l],
{
    let mut mask: Vec<usize> = Vec::new();
    let mut cpu: usize = 0;
    while cpu < cpu_num
        invariant
            cpu <= cpu_num,
            forall|c: usize| #[trigger] mask@.contains(c) <==> c < cpu && c != exclude,
            forall|k: int, l: int| 0 <= k < l < mask@.len() ==> mask@[k] < mask@[l],
            forall|k: int| 0 <= k < mask@.len() ==> mask@[k] < cpu,
        decreases cpu_num - cpu,
    {
        if cpu != exclude {
            let ghost before = mask@;
            mask.push(cpu);
            proof {
                assert forall|c: usize| #[trigger] mask@.contains(c) <==> c < cpu + 1 && c
                    != exclude by {
                    if c == cpu {
                        assert(mask@[before.len() as int] == cpu);
                    }
                    if mask@.contains(c) && c != cpu {
                        let k = choose|k: int| 0 <= k < mask@.len() && mask@[k] == c;
                        assert(k < before.len());
                        assert(before.contains(c));
                    }
                    if c < cpu && c != exclude {
                        assert(before.contains(c));
                        let k = choose|k: int| 0 <= k < before.len() && before[k] == c;
                        assert(mask@[k] == c);
                    }
                }
            }
        }
        cpu = cpu + 1;
    }
    if mask.len() == 0 {
        proof {
            assert(cpu_num == 0 || (cpu_num == 1 && exclude == 0)) by {
                if cpu_num >= 2 {
                    let c: usize = if exclude == 0 {
                        1
                    } else {
                        0
                    };
                    assert(mask@.contains(c));
                } else if cpu_num == 1 && exclude != 0 {
                    assert(mask@.contains(0));
                }
            }
        }
        mask.push(exclude);
        proof {
            assert forall|c: usize| #[trigger] mask@.contains(c) <==> c == exclude by {
                if mask@.contains(c) {
                    let k = choose|k: int| 0 <= k < mask@.len() && mask@[k] == c;
                }
                if c == exclude {
                    assert(mask@[0] == exclude);
                }
            }
        }
    } else {
        proof {
            assert(mask@.contains(mask@[0]));
        }
    }
    mask
}

/// Which CPUs a worker may run on in a round: its home CPU in every third
/// round, every other CPU in the next, all CPUs in the one after.
pub enum AffinityChoice {
    Home(usize),
    AllBut(usize),
    All,
}

/// The affinity a worker asks for in `round`.
pub fn affinity_for_round(worker: usize, round: usize, cpu_num: usize) -> (a: AffinityChoice)
    requires
        cpu_num > 0,
    ensures
        round % 3 == 0 ==> a == AffinityChoice::Home(worker % cpu_num),
        round % 3 == 1 ==> a == AffinityChoice::AllBut(worker % cpu_num),
        round % 3 == 2 ==> a == AffinityChoice::All,
{
    let home_cpu = worker % cpu_num;
    if round % 3 == 0 {
        AffinityChoice::Home(home_cpu)
    } else if round % 3 == 1 {
        AffinityChoice::AllBut(home_cpu)
    } else {
        AffinityChoice::All
    }
}

/// The CPUs of an affinity choice among `cpu_num` CPUs.
pub fn affinity_mask(choice: &AffinityChoice, cpu_num: usize) -> (mask: Vec<usize>)
    ensures
        match *choice {
            AffinityChoice::Home(c) => mask@ == seq![c],
            AffinityChoice::AllBut(c) => forall|x: usize| #[trigger] mask@.contains(x) <==> if cpu_num
                == 0 || (cpu_num == 1 && c == 0) {
                x == c
            } else {
                x < cpu_num && x != c
            },
            AffinityChoice::All => mask@.len() == cpu_num && forall|k: int|
                0 <= k < cpu_num ==> mask@[k] == k,
        },
{
    match choice {
        AffinityChoice::Home(c) => {
            let mut m: Vec<usize> = Vec::new();
            m.push(*c);
            proof {
                assert(m@ =~= seq![*c]);
            }
            m
        },
        AffinityChoice::AllBut(c) => cpu_mask_excluding(cpu_num, *c),
        AffinityChoice::All => cpu_mask_all(cpu_num),
    }
}

/// How many critical sections a worker runs before the midway barrier.
pub fn first_sections(worker: usize, round: usize) -> (n: usize)
    requires
        worker + round <= usize::MAX,
    ensures
        n == 2 + (worker + round) % 3,
{
    2 + (worker + round) % 3
}

/// How many critical sections a worker runs after the release barrier.
pub fn second_sections(worker: usize, round: usize) -> (n: usize)
    requires
        worker + round <= usize::MAX,
    ensures
        n == 3 + (worker + round) % 4,
{
    3 + (worker + round) % 4
}

/// The pause, in milliseconds, before the coordinator starts `round`.
pub fn pre_notify_delay_ms(round: usize) -> (ms: u64)
    ensures
        ms == if round % 4 == 0 {
            0u64
        } else if round % 4 == 1 {
            45
        } else if round % 4 == 2 {
            178
        } else {
            181
        },
{
    let start_timeout_ms: u64 = 180;
    if round % 4 == 0 {
        0
    } else if round % 4 == 1 {
        start_timeout_ms / 4
    } else if round % 4 == 2 {
        start_timeout_ms - 2
    } else {
        start_timeout_ms + 1
    }
}

/// The pause, in milliseconds, before the coordinator releases `round`.
pub fn release_delay_ms(round: usize) -> (ms: u64)
    ensures
        ms == if round % 5 == 0 {
            0u64
        } else if round % 5 == 1 {
            60
        } else if round % 5 == 2 {
            178
        } else if round % 5 == 3 {
            181
        } else {
            90
        },
{
    let release_timeout_ms: u64 = 180;
    if round % 5 == 0 {
        0
    } else if round % 5 == 1 {
        release_timeout_ms / 3
    } else if round % 5 == 2 {
        release_timeout_ms - 2
    } else if round % 5 == 3 {
        release_timeout_ms + 1
    } else {
        release_timeout_ms / 2
    }
}

/// Whether `round` ran enough critical sections: at least five per worker
/// per round so far.
pub fn round_hits_sufficient(hits: usize, worker_count: usize, round: usize) -> (ok: bool)
    requires
        round < usize::MAX,
        worker_count * (round + 1) * 5 <= usize::MAX,
    ensures
        ok == (hits >= worker_count * (round + 1) * 5),
{
    let rounds_done = round + 1;
    assert(worker_count * rounds_done <= worker_count * rounds_done * 5) by (nonlinear_arith)
        requires
            worker_count * rounds_done >= 0,
    ;
    hits >= worker_count * rounds_done * 5
}

/// Ticks without progress after which the watchdog fails the test.
pub const WATCHDOG_STALL_TICKS: usize = 40;

/// What the progress watchdog remembers between its ticks.
#[derive(Clone, Copy, PartialEq, Eq, Debug, Structural)]
pub struct WatchdogState {
    pub last_progress: usize,
    pub stall_ticks: usize,
}

/// What the watchdog does after a tick.
#[derive(Clone, Copy, PartialEq, Eq, Debug, Structural)]
pub enum WatchdogAction {
    /// Keep watching.
    Continue,
    /// Dump the stuck workers; one more stalled tick fails the test.
    DumpStuck,
    /// No progress for too long: fail the test.
    Fail,
}

/// One watchdog tick with the progress counter at `progress`.
pub fn watchdog_step(state: WatchdogState, progress: usize) -> (r: (WatchdogState, WatchdogAction))
    requires
        state.stall_ticks < WATCHDOG_STALL_TICKS,
    ensures
        progress != state.last_progress ==> r == (WatchdogState { last_progress: progress, stall_ticks: 0 }, WatchdogAction::Continue),
        progress == state.last_progress ==> {
            let ticks = (state.stall_ticks + 1) as usize;
            &&& r.0 == WatchdogState { last_progress: state.last_progress, stall_ticks: ticks }
            &&& r.1 == if ticks >= 40 {
                WatchdogAction::Fail
            } else if ticks + 1 == 40 {
                WatchdogAction::DumpStuck
            } else {
                WatchdogAction::Continue
            }
        },
{
    if progress == state.last_progress {
        let ticks = state.stall_ticks + 1;
        let next = WatchdogState { last_progress: state.last_progress, stall_ticks: ticks };
        if ticks >= WATCHDOG_STALL_TICKS {
            (next, WatchdogAction::Fail)
        } else if ticks + 1 == WATCHDOG_STALL_TICKS {
            (next, WatchdogAction::DumpStuck)
        } else {
            (next, WatchdogAction::Continue)
        }
    } else {
        (WatchdogState { last_progress: progress, stall_ticks: 0 }, WatchdogAction::Continue)
    }
}

/// The counters that the workers update under the shared lock.
#[derive(Clone, Copy, PartialEq, Eq, Debug, Structural)]
pub struct SharedCounters {
    pub round_hits: usize,
    pub critical_sum: usize,
}

/// How a worker paces one critical section: whether it yields while
/// holding the lock, how many spin iterations it burns there, and whether
/// it sleeps a millisecond (rather than yields) after releasing it.
#[derive(Clone, Copy, PartialEq, Eq, Debug, Structural)]
pub struct SectionPacing {
    pub yield_in_section: bool,
    pub spin_iterations: u32,
    pub sleep_after: bool,
}

/// One critical section before the midway barrier: counts the hit, adds
/// `worker ^ round ^ section` to the shared sum and folds the new sum into
/// the worker's score (wrapping).
pub fn first_critical_section(
    shared: &mut SharedCounters,
    worker: usize,
    round: usize,
    section: usize,
    local_score: usize,
) -> (score: usize)
    requires
        old(shared).round_hits < usize::MAX,
        old(shared).critical_sum + (worker ^ round ^ section) <= usize::MAX,
    ensures
        final(shared).round_hits == old(shared).round_hits + 1,
        final(shared).critical_sum == old(shared).critical_sum + (worker ^ round ^ section),
        score == local_score.wrapping_add(final(shared).critical_sum),
{
    shared.round_hits = shared.round_hits + 1;
    shared.critical_sum = shared.critical_sum + (worker ^ round ^ section);
    local_score.wrapping_add(shared.critical_sum)
}

/// One critical section after the release barrier: counts the hit, adds
/// `(worker + section) ^ (round << 1)` to the shared sum and folds the new
/// sum into the worker's score (wrapping).
pub fn second_critical_section(
    shared: &mut SharedCounters,
    worker: usize,
    round: usize,
    section: usize,
    local_score: usize,
) -> (score: usize)
    requires
        old(shared).round_hits < usize::MAX,
        worker + section <= usize::MAX,
        old(shared).critical_sum + (((worker + section) as usize) ^ (round << 1usize)) <= usize::MAX,
    ensures
        final(shared).round_hits == old(shared).round_hits + 1,
        final(shared).critical_sum == old(shared).critical_sum + (((worker + section) as usize) ^ (
        round << 1usize)),
        score == local_score.wrapping_add(final(shared).critical_sum),
{
    shared.round_hits = shared.round_hits + 1;
    shared.critical_sum = shared.critical_sum + ((worker + section) ^ (round << 1usize));
    local_score.wrapping_add(shared.critical_sum)
}

/// The pacing of a critical section before the midway barrier.
pub fn first_section_pacing(worker: usize, round: usize, section: usize) -> (p: SectionPacing)
    requires
        worker + round + section <= usize::MAX,
    ensures
        p.yield_in_section == ((worker + round + section) % 2 == 0),
        p.spin_iterations == if (worker + round + section) % 4 == 0 {
            128u32
        } else {
            0
        },
        p.sleep_after == ((worker + round + section) % 3 == 0),
{
    let k = worker + round + section;
    SectionPacing {
        yield_in_section: k % 2 == 0,
        spin_iterations: if k % 4 == 0 {
            128
        } else {
            0
        },
        sleep_after: k % 3 == 0,
    }
}

/// The pacing of a critical section after the release barrier.
pub fn second_section_pacing(worker: usize, round: usize, section: usize) -> (p: SectionPacing)
    requires
        worker + round + section <= usize::MAX,
    ensures
        p.yield_in_section == ((worker + round + section) % 2 == 1),
        p.spin_iterations == if (worker + round + section) % 5 == 0 {
            256u32
        } else {
            0
        },
        p.sleep_after == ((worker + round + section) % 2 == 0),
{
    let k = worker + round + section;
    SectionPacing {
        yield_in_section: k % 2 == 1,
        spin_iterations: if k % 5 == 0 {
            256
        } else {
            0
        },
        sleep_after: k % 2 == 0,
    }
}

/// The rounds the stress test runs.
pub const STRESS_ROUNDS: usize = 64;

/// The size of the stress run on `cpu_num` CPUs: four workers per CPU for
/// the fixed number of rounds, or nothing on a single CPU.
pub fn stress_plan(cpu_num: usize) -> (plan: Option<(usize, usize)>)
    requires
        cpu_num * 4 <= usize::MAX,
    ensures
        cpu_num <= 1 ==> plan is None,
        cpu_num > 1 ==> plan == Some(((cpu_num * 4) as usize, 64usize)),
{
    if cpu_num <= 1 {
        None
    } else {
        Some((cpu_num * 4, STRESS_ROUNDS))
    }
}

/// How many arrivals a barrier of `round` waits for: every worker, once
/// per round so far.
pub fn barrier_target(worker_count: usize, round: usize) -> (n: usize)
    requires
        round < usize::MAX,
        worker_count * (round + 1) <= usize::MAX,
    ensures
        n == worker_count * (round + 1),
{
    worker_count * (round + 1)
}

/// The critical sections one worker runs in `round`.
pub open spec fn sections_in_round(worker: nat, round: nat) -> nat {
    (2 + (worker + round) % 3) as nat + (3 + (worker + round) % 4) as nat
}

/// The critical sections one worker has run after `rounds` rounds.
pub open spec fn worker_hits(worker: nat, rounds: nat) -> nat
    decreases rounds,
{
    if rounds == 0 {
        0
    } else {
        worker_hits(worker, (rounds - 1) as nat) + sections_in_round(worker, (rounds - 1) as nat)
    }
}

/// The critical sections that workers `0..workers` have run after `rounds`
/// rounds.
pub open spec fn total_hits(workers: nat, rounds: nat) -> nat
    decreases workers,
{
    if workers == 0 {
        0
    } else {
        total_hits((workers - 1) as nat, rounds) + worker_hits((workers - 1) as nat, rounds)
    }
}

proof fn lemma_worker_hits_bound(worker: nat, rounds: nat)
    ensures
        worker_hits(worker, rounds) >= 5 * rounds,
    decreases rounds,
{
    if rounds > 0 {
        lemma_worker_hits_bound(worker, (rounds - 1) as nat);
    }
}

/// The round check of the stress test holds in every run that finishes
/// its rounds: after `rounds` rounds the workers have run at least five
/// critical sections each per round.
pub proof fn lemma_total_hits_bound(workers: nat, rounds: nat)
    ensures
        total_hits(workers, rounds) >= 5 * workers * rounds,
    decreases workers,
{
    if workers > 0 {
        let w = (workers - 1) as nat;
        lemma_total_hits_bound(w, rounds);
        lemma_worker_hits_bound(w, rounds);
        assert(5 * w * rounds + 5 * rounds == 5 * workers * rounds) by (nonlinear_arith)
            requires
                w + 1 == workers,
        ;
    } else {
        assert(5 * workers * rounds == 0) by (nonlinear_arith)
            requires
                workers == 0,
        ;
    }
}

/// A number as `{:02}` writes it: at least two digits.
pub open spec fn two_digits(n: nat) -> Seq<char> {
    if n < 10 {
        seq!['0'] + decimal(n)
    } else {
        decimal(n)
    }
}

fn push_two_digits(out: &mut String, n: u64)
    ensures
        final(out)@ == old(out)@ + two_digits(n as nat),
{
    if n < 10 {
        push_str(out, "0");
        proof {
            reveal_strlit("0");
        }
    }
    push_decimal(out, n);
    proof {
        assert(final(out)@ =~= old(out)@ + two_digits(n as nat));
    }
}

/// The line that opens a stress run.
pub open spec fn banner_text(cpu_num: usize, worker_count: usize, rounds: usize) -> Seq<char> {
    "concurrency_stress: cpu_num="@ + decimal(cpu_num as nat) + ", worker_count="@ + decimal(
        worker_count as nat,
    ) + ", rounds="@ + decimal(rounds as nat)
}

/// Renders the line that opens a stress run.
pub fn stress_banner(cpu_num: usize, worker_count: usize, rounds: usize) -> (s: String)
    ensures
        s@ == banner_text(cpu_num, worker_count, rounds),
{
    let mut s = String::new();
    push_str(&mut s, "concurrency_stress: cpu_num=");
    push_decimal(&mut s, cpu_num as u64);
    push_str(&mut s, ", worker_count=");
    push_decimal(&mut s, worker_count as u64);
    push_str(&mut s, ", rounds=");
    push_decimal(&mut s, rounds as u64);
    proof {
        assert(s@ =~= banner_text(cpu_num, worker_count, rounds));
    }
    s
}

/// The progress line of a round.
pub open spec fn round_report_text(
    round: usize,
    armed: usize,
    midway: usize,
    finished: usize,
    start_round: usize,
    release_round: usize,
) -> Seq<char> {
    "round "@ + two_digits(round as nat) + ": armed="@ + decimal(armed as nat) + ", midway="@
        + decimal(midway as nat) + ", finished="@ + decimal(finished as nat) + ", start_round="@
        + decimal(start_round as nat) + ", release_round="@ + decimal(release_round as nat)
}

/// The progress line after `round`, printed every fifth round only.
pub fn round_report(
    round: usize,
    armed: usize,
    midway: usize,
    finished: usize,
    start_round: usize,
    release_round: usize,
) -> (r: Option<String>)
    ensures
        round % 5 != 0 ==> r is None,
        round % 5 == 0 ==> (r matches Some(s) && s@ == round_report_text(
            round,
            armed,
            midway,
            finished,
            start_round,
            release_round,
        )),
{
    if round % 5 != 0 {
        return None;
    }
    let mut s = String::new();
    push_str(&mut s, "round ");
    push_two_digits(&mut s, round as u64);
    push_str(&mut s, ": armed=");
    push_decimal(&mut s, armed as u64);
    push_str(&mut s, ", midway=");
    push_decimal(&mut s, midway as u64);
    push_str(&mut s, ", finished=");
    push_decimal(&mut s, finished as u64);
    push_str(&mut s, ", start_round=");
    push_decimal(&mut s, start_round as u64);
    push_str(&mut s, ", release_round=");
    push_decimal(&mut s, release_round as u64);
    proof {
        assert(s@ =~= round_report_text(
            round,
            armed,
            midway,
            finished,
            start_round,
            release_round,
        ));
    }
    Some(s)
}

/// The closing line of a stress run.
pub open spec fn summary_text(round_hits: usize, critical_sum: usize, total_score: usize) -> Seq<
    char,
> {
    "concurrency_stress: round_hits="@ + decimal(round_hits as nat) + ", critical_sum="@ + decimal(
        critical_sum as nat,
    ) + ", total_score="@ + decimal(total_score as nat)
}

/// Renders the closing line of a stress run.
pub fn stress_summary(round_hits: usize, critical_sum: usize, total_score: usize) -> (s: String)
    ensures
        s@ == summary_text(round_hits, critical_sum, total_score),
{
    let mut s = String::new();
    push_str(&mut s, "concurrency_stress: round_hits=");
    push_decimal(&mut s, round_hits as u64);
    push_str(&mut s, ", critical_sum=");
    push_decimal(&mut s, critical_sum as u64);
    push_str(&mut s, ", total_score=");
    push_decimal(&mut s, total_score as u64);
    proof {
        assert(s@ =~= summary_text(round_hits, critical_sum, total_score));
    }
    s
}

/// The scores of the workers, added up with wrapping.
pub open spec fn wrapping_total(scores: Seq<usize>) -> usize
    decreases scores.len(),
{
    if scores.len() == 0 {
        0
    } else {
        wrapping_total(scores.drop_last()).wrapping_add(scores.last())
    }
}

/// The total score of a run: the workers' scores added up with wrapping,
/// in worker order.
pub fn total_score(scores: &[usize]) -> (t: usize)
    ensures
        t == wrapping_total(scores@),
{
    let mut t: usize = 0;
    let mut i: usize = 0;
    while i < scores.len()
        invariant
            i <= scores@.len(),
            t == wrapping_total(scores@.take(i as int)),
        decreases scores@.len() - i,
    {
        proof {
            assert(scores@.take(i + 1).drop_last() =~= scores@.take(i as int));
        }
        t = t.wrapping_add(scores[i]);
        i = i + 1;
    }
    proof {
        assert(scores@.take(i as int) =~= scores@);
    }
    t
}

/// The first line of a stuck-worker dump.
pub open spec fn stuck_header_text(reason: Seq<char>, round: usize, expected: WorkerStage) -> Seq<
    char,
> {
    "stuck dump: reason="@ + reason + ", round="@ + decimal(round as nat) + ", expected_stage="@
        + stage_name(expected)
}

/// Renders the first line of a stuck-worker dump.
pub fn stuck_dump_header(reason: &str, round: usize, expected: WorkerStage) -> (s: String)
    ensures
        s@ == stuck_header_text(reason@, round, expected),
{
    let mut s = String::new();
    push_str(&mut s, "stuck dump: reason=");
    push_str(&mut s, reason);
    push_str(&mut s, ", round=");
    push_decimal(&mut s, round as u64);
    push_str(&mut s, ", expected_stage=");
    push_str(&mut s, expected.as_str());
    proof {
        assert(s@ =~= stuck_header_text(reason@, round, expected));
    }
    s
}

/// The dump line of one stuck worker, from its recorded state word.
pub open spec fn stuck_line_text(worker: usize, word: usize) -> Seq<char> {
    "  worker "@ + two_digits(worker as nat) + ": round="@ + decimal((word >> 16usize) as nat)
        + ", stage="@ + stage_name(stage_of(word & 0xffusize)) + ", detail="@ + decimal(
        ((word >> 8usize) & 0xffusize) as nat,
    )
}

/// Renders the dump line of one stuck worker.
pub fn stuck_worker_line(worker: usize, word: usize) -> (s: String)
    ensures
        s@ == stuck_line_text(worker, word),
{
    let (round, stage, detail) = decode_worker_state(word);
    let mut s = String::new();
    push_str(&mut s, "  worker ");
    push_two_digits(&mut s, worker as u64);
    push_str(&mut s, ": round=");
    push_decimal(&mut s, round as u64);
    push_str(&mut s, ", stage=");
    push_str(&mut s, stage.as_str());
    push_str(&mut s, ", detail=");
    push_decimal(&mut s, detail as u64);
    proof {
        assert(s@ =~= stuck_line_text(worker, word));
    }
    s
}

/// Where a stress worker stands in its round loop: the round, the stage,
/// and the section count or index that goes with the stage.
#[derive(Clone, Copy, PartialEq, Eq, Debug, Structural)]
pub struct WorkerPosition {
    pub round: usize,
    pub stage: WorkerStage,
    pub section: usize,
}

/// What a stress worker does next. Each action records the new position
/// as the worker's state word first.
#[derive(Clone, Copy, PartialEq, Eq, Debug, Structural)]
pub enum WorkerAction {
    /// Set the round's affinity, count the worker as armed and wake the
    /// coordinator.
    Arm,
    /// Wait, with a timeout, for the coordinator to start the round.
    WaitStart,
    /// Run this critical section before the midway barrier.
    FirstSection(usize),
    /// Count the worker as midway (after this many sections) and wake the
    /// coordinator.
    ReachMidway(usize),
    /// Wait, with a timeout, for the coordinator to release the round.
    WaitRelease,
    /// Run this critical section after the release barrier.
    SecondSection(usize),
    /// Count the worker as finished with the round (after this many
    /// sections) and wake the coordinator.
    Finish(usize),
    /// Every round is done: hand back the score.
    Exit,
}

/// The arming of round `round`, or the end when every round is done.
pub open spec fn arm_or_exit(pos: WorkerPosition, round: usize, rounds: usize) -> (
    WorkerPosition,
    WorkerAction,
) {
    if round < rounds {
        (WorkerPosition { round, stage: WorkerStage::Armed, section: 0 }, WorkerAction::Arm)
    } else {
        (pos, WorkerAction::Exit)
    }
}

/// One step of worker `worker` in a run of `rounds` rounds, given the
/// coordinator's start and release rounds as it reads them now.
pub open spec fn worker_next(
    worker: usize,
    pos: WorkerPosition,
    rounds: usize,
    start_round: usize,
    release_round: usize,
) -> (WorkerPosition, WorkerAction) {
    let r = pos.round;
    match pos.stage {
        WorkerStage::Init => arm_or_exit(pos, r, rounds),
        WorkerStage::Armed | WorkerStage::WaitStart => if start_round <= r {
            (WorkerPosition { round: r, stage: WorkerStage::WaitStart, section: 0 }, WorkerAction::WaitStart)
        } else {
            (
                WorkerPosition { round: r, stage: WorkerStage::FirstCritical, section: 0 },
                WorkerAction::FirstSection(0),
            )
        },
        WorkerStage::FirstCritical => {
            let n = (2 + (worker + r) % 3) as usize;
            if pos.section + 1 < n {
                (
                    WorkerPosition { round: r, stage: WorkerStage::FirstCritical, section: (pos.section + 1) as usize },
                    WorkerAction::FirstSection((pos.section + 1) as usize),
                )
            } else {
                (WorkerPosition { round: r, stage: WorkerStage::Midway, section: n }, WorkerAction::ReachMidway(n))
            }
        },
        WorkerStage::Midway | WorkerStage::WaitRelease => if release_round <= r {
            (WorkerPosition { round: r, stage: WorkerStage::WaitRelease, section: 0 }, WorkerAction::WaitRelease)
        } else {
            (
                WorkerPosition { round: r, stage: WorkerStage::SecondCritical, section: 0 },
                WorkerAction::SecondSection(0),
            )
        },
        WorkerStage::SecondCritical => {
            let n = (3 + (worker + r) % 4) as usize;
            if pos.section + 1 < n {
                (
                    WorkerPosition { round: r, stage: WorkerStage::SecondCritical, section: (pos.section + 1) as usize },
                    WorkerAction::SecondSection((pos.section + 1) as usize),
                )
            } else {
                (WorkerPosition { round: r, stage: WorkerStage::Finished, section: n }, WorkerAction::Finish(n))
            }
        },
        WorkerStage::Finished => arm_or_exit(pos, (r + 1) as usize, rounds),
    }
}

/// The step of a stress worker: starting from `Init` at round 0, it arms,
/// waits for the start, runs its first sections, reaches midway, waits for
/// the release, runs its second sections and finishes, round after round,
/// until every round is done.
pub fn worker_step(
    worker: usize,
    pos: WorkerPosition,
    rounds: usize,
    start_round: usize,
    release_round: usize,
) -> (next: (WorkerPosition, WorkerAction))
    requires
        worker + pos.round < usize::MAX,
        pos.section < usize::MAX,
    ensures
        next == worker_next(worker, pos, rounds, start_round, release_round),
{
    let r = pos.round;
    match pos.stage {
        WorkerStage::Init => {
            if r < rounds {
                (WorkerPosition { round: r, stage: WorkerStage::Armed, section: 0 }, WorkerAction::Arm)
            } else {
                (pos, WorkerAction::Exit)
            }
        },
        WorkerStage::Armed | WorkerStage::WaitStart => {
            if start_round <= r {
                (
                    WorkerPosition { round: r, stage: WorkerStage::WaitStart, section: 0 },
                    WorkerAction::WaitStart,
                )
            } else {
                (
                    WorkerPosition { round: r, stage: WorkerStage::FirstCritical, section: 0 },
                    WorkerAction::FirstSection(0),
                )
            }
        },
        WorkerStage::FirstCritical => {
            let n = first_sections(worker, r);
            if pos.section + 1 < n {
                (
                    WorkerPosition { round: r, stage: WorkerStage::FirstCritical, section: pos.section + 1 },
                    WorkerAction::FirstSection(pos.section + 1),
                )
            } else {
                (WorkerPosition { round: r, stage: WorkerStage::Midway, section: n }, WorkerAction::ReachMidway(n))
            }
        },
        WorkerStage::Midway | WorkerStage::WaitRelease => {
            if release_round <= r {
                (
                    WorkerPosition { round: r, stage: WorkerStage::WaitRelease, section: 0 },
                    WorkerAction::WaitRelease,
                )
            } else {
                (
                    WorkerPosition { round: r, stage: WorkerStage::SecondCritical, section: 0 },
                    WorkerAction::SecondSection(0),
                )
            }
        },
        WorkerStage::SecondCritical => {
            let n = second_sections(worker, r);
            if pos.section + 1 < n {
                (
                    WorkerPosition { round: r, stage: WorkerStage::SecondCritical, section: pos.section + 1 },
                    WorkerAction::SecondSection(pos.section + 1),
                )
            } else {
                (WorkerPosition { round: r, stage: WorkerStage::Finished, section: n }, WorkerAction::Finish(n))
            }
        },
        WorkerStage::Finished => {
            let next_round = r + 1;
            if next_round < rounds {
                (WorkerPosition { round: next_round, stage: WorkerStage::Armed, section: 0 }, WorkerAction::Arm)
            } else {
                (pos, WorkerAction::Exit)
            }
        },
    }
}

/// A worker never goes back: each step keeps its round, or moves to a
/// later round; within a round the stage never moves back, and inside one
/// stage the section only grows. A worker that exits stays where it was.
pub proof fn lemma_worker_never_goes_back(
    worker: usize,
    pos: WorkerPosition,
    rounds: usize,
    start_round: usize,
    release_round: usize,
)
    requires
        worker + pos.round < usize::MAX,
        pos.section < usize::MAX,
    ensures
        ({
            let (next, action) = worker_next(worker, pos, rounds, start_round, release_round);
            &&& action is Exit ==> next == pos
            &&& next.round >= pos.round
            &&& next.round == pos.round ==> stage_code(next.stage) >= stage_code(pos.stage)
            &&& next.round == pos.round && next.stage == pos.stage ==> next.section >= pos.section
                || (next.stage is WaitStart || next.stage is WaitRelease)
        }),
{
}

} // verus!
