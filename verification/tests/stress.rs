use tgoskits::stress::{
    affinity_for_round, affinity_mask, cpu_mask_all, cpu_mask_excluding, decode_worker_state,
    encode_worker_state, first_sections, pre_notify_delay_ms, release_delay_ms,
    round_hits_sufficient, second_sections, stuck_workers, watchdog_step, worker_state_word,
    AffinityChoice, WatchdogAction, WatchdogState, WorkerStage, first_critical_section,
    second_critical_section, first_section_pacing, second_section_pacing, stress_plan,
    barrier_target, SharedCounters, SectionPacing, stress_banner, round_report, stress_summary,
    total_score, stuck_dump_header, stuck_worker_line, worker_step, WorkerAction, WorkerAction as A, WorkerPosition,
};

#[test]
fn stage_codes_round_trip() {
    for code in 0..8usize {
        assert_eq!(WorkerStage::from_usize(code).as_usize(), code);
    }
    assert_eq!(WorkerStage::from_usize(200), WorkerStage::Init);
    assert_eq!(WorkerStage::SecondCritical.as_str(), "second_critical");
    assert_eq!(WorkerStage::WaitStart.as_str(), "wait_start");
}

#[test]
fn state_word_round_trip() {
    let word = encode_worker_state(63, WorkerStage::Midway, 4);
    assert_eq!(word, (63 << 16) | (4 << 8) | 4);
    assert_eq!(decode_worker_state(word), (63, WorkerStage::Midway, 4));
}

#[test]
fn detail_is_capped() {
    let word = worker_state_word(2, WorkerStage::Finished, 1000);
    assert_eq!(decode_worker_state(word), (2, WorkerStage::Finished, 0xff));
}

#[test]
fn stuck_workers_are_the_ones_behind() {
    let states = [
        encode_worker_state(3, WorkerStage::Finished, 0),
        encode_worker_state(3, WorkerStage::Midway, 0),
        encode_worker_state(2, WorkerStage::Finished, 0),
        encode_worker_state(4, WorkerStage::Init, 0),
    ];
    assert_eq!(stuck_workers(&states, 3, WorkerStage::Finished), vec![1, 2]);
    assert_eq!(stuck_workers(&states, 3, WorkerStage::Midway), vec![2]);
}

#[test]
fn cpu_masks() {
    assert_eq!(cpu_mask_all(3), vec![0, 1, 2]);
    assert_eq!(cpu_mask_excluding(4, 1), vec![0, 2, 3]);
    assert_eq!(cpu_mask_excluding(1, 0), vec![0]);
    assert_eq!(cpu_mask_excluding(0, 5), vec![5]);
    assert_eq!(cpu_mask_excluding(2, 7), vec![0, 1]);
}

#[test]
fn affinity_cycles_every_three_rounds() {
    assert!(matches!(affinity_for_round(5, 0, 4), AffinityChoice::Home(1)));
    assert!(matches!(affinity_for_round(5, 1, 4), AffinityChoice::AllBut(1)));
    assert!(matches!(affinity_for_round(5, 2, 4), AffinityChoice::All));
    assert_eq!(affinity_mask(&affinity_for_round(5, 4, 4), 4), vec![0, 2, 3]);
}

#[test]
fn section_counts() {
    assert_eq!(first_sections(0, 0), 2);
    assert_eq!(first_sections(1, 1), 4);
    assert_eq!(second_sections(2, 1), 6);
    assert_eq!(second_sections(2, 2), 3);
}

#[test]
fn coordinator_delays() {
    assert_eq!(
        (0..4).map(pre_notify_delay_ms).collect::<Vec<_>>(),
        vec![0, 45, 178, 181]
    );
    assert_eq!(
        (0..5).map(release_delay_ms).collect::<Vec<_>>(),
        vec![0, 60, 178, 181, 90]
    );
}

#[test]
fn round_hits_threshold() {
    assert!(round_hits_sufficient(40, 4, 1));
    assert!(!round_hits_sufficient(39, 4, 1));
}

#[test]
fn watchdog_dumps_then_fails() {
    let mut state = WatchdogState { last_progress: 7, stall_ticks: 0 };
    let mut actions = Vec::new();
    for _ in 0..40 {
        let (next, action) = watchdog_step(state, 7);
        actions.push(action);
        state = next;
        if action == WatchdogAction::Fail {
            break;
        }
    }
    assert_eq!(actions.len(), 40);
    assert_eq!(actions[38], WatchdogAction::DumpStuck);
    assert_eq!(actions[39], WatchdogAction::Fail);
    assert!(actions[..38].iter().all(|a| *a == WatchdogAction::Continue));
}

#[test]
fn watchdog_resets_on_progress() {
    let state = WatchdogState { last_progress: 7, stall_ticks: 30 };
    let (next, action) = watchdog_step(state, 8);
    assert_eq!(next, WatchdogState { last_progress: 8, stall_ticks: 0 });
    assert_eq!(action, WatchdogAction::Continue);
}

#[test]
fn critical_sections_update_counters_and_score() {
    let mut shared = SharedCounters { round_hits: 0, critical_sum: 0 };
    let s1 = first_critical_section(&mut shared, 3, 5, 1, 0);
    assert_eq!(shared, SharedCounters { round_hits: 1, critical_sum: 3 ^ 5 ^ 1 });
    assert_eq!(s1, 7);
    let s2 = second_critical_section(&mut shared, 3, 5, 2, s1);
    assert_eq!(shared.round_hits, 2);
    assert_eq!(shared.critical_sum, 7 + ((3 + 2) ^ (5 << 1)));
    assert_eq!(s2, 7 + 22);
    let s3 = first_critical_section(&mut shared, 0, 0, 0, usize::MAX);
    assert_eq!(s3, 21);
}

#[test]
fn section_pacing_follows_the_schedule() {
    assert_eq!(
        first_section_pacing(0, 0, 0),
        SectionPacing { yield_in_section: true, spin_iterations: 128, sleep_after: true }
    );
    assert_eq!(
        first_section_pacing(1, 0, 0),
        SectionPacing { yield_in_section: false, spin_iterations: 0, sleep_after: false }
    );
    assert_eq!(
        second_section_pacing(5, 0, 0),
        SectionPacing { yield_in_section: true, spin_iterations: 256, sleep_after: false }
    );
    assert_eq!(
        second_section_pacing(2, 0, 0),
        SectionPacing { yield_in_section: false, spin_iterations: 0, sleep_after: true }
    );
}

#[test]
fn stress_plan_skips_single_cpu() {
    assert_eq!(stress_plan(0), None);
    assert_eq!(stress_plan(1), None);
    assert_eq!(stress_plan(2), Some((8, 64)));
    assert_eq!(stress_plan(4), Some((16, 64)));
}

#[test]
fn barrier_waits_for_every_worker_every_round() {
    assert_eq!(barrier_target(8, 0), 8);
    assert_eq!(barrier_target(8, 3), 32);
}

#[test]
fn every_worker_round_runs_at_least_five_sections() {
    for worker in 0..16 {
        for round in 0..16 {
            assert!(first_sections(worker, round) + second_sections(worker, round) >= 5);
        }
    }
}

#[test]
fn stress_lines_render_like_the_console_output() {
    assert_eq!(
        stress_banner(4, 16, 64),
        "concurrency_stress: cpu_num=4, worker_count=16, rounds=64"
    );
    assert_eq!(
        round_report(5, 96, 96, 96, 6, 6),
        Some("round 05: armed=96, midway=96, finished=96, start_round=6, release_round=6".to_string())
    );
    assert_eq!(
        round_report(10, 1, 2, 3, 4, 5),
        Some("round 10: armed=1, midway=2, finished=3, start_round=4, release_round=5".to_string())
    );
    assert_eq!(round_report(3, 1, 2, 3, 4, 5), None);
    assert_eq!(
        stress_summary(5120, 77, 12),
        "concurrency_stress: round_hits=5120, critical_sum=77, total_score=12"
    );
}

#[test]
fn total_score_wraps() {
    assert_eq!(total_score(&[]), 0);
    assert_eq!(total_score(&[1, 2, 3]), 6);
    assert_eq!(total_score(&[usize::MAX, 2]), 1);
}

#[test]
fn stuck_dump_lines() {
    assert_eq!(
        stuck_dump_header("armed timeout", 3, WorkerStage::Armed),
        "stuck dump: reason=armed timeout, round=3, expected_stage=armed"
    );
    let word = encode_worker_state(2, WorkerStage::FirstCritical, 4);
    assert_eq!(
        stuck_worker_line(7, word),
        "  worker 07: round=2, stage=first_critical, detail=4"
    );
    assert_eq!(
        stuck_worker_line(12, encode_worker_state(0, WorkerStage::Init, 0)),
        "  worker 12: round=0, stage=init, detail=0"
    );
}

#[test]
fn worker_walks_each_round_in_stage_order() {
    let mut pos = WorkerPosition { round: 0, stage: WorkerStage::Init, section: 0 };
    let mut actions = Vec::new();
    // The coordinator holds round 0 back once, then lets everything through.
    let mut start_round = 0;
    let mut release_round = 0;
    loop {
        let (next, action) = worker_step(1, pos, 2, start_round, release_round);
        actions.push(action);
        if action == WorkerAction::Exit {
            assert_eq!(next, pos);
            break;
        }
        if action == WorkerAction::WaitStart {
            start_round += 1;
        }
        if action == WorkerAction::WaitRelease {
            release_round += 1;
        }
        pos = next;
    }
    assert_eq!(
        actions,
        vec![
            A::Arm, A::WaitStart, A::FirstSection(0), A::FirstSection(1), A::FirstSection(2), A::ReachMidway(3),
            A::WaitRelease, A::SecondSection(0), A::SecondSection(1), A::SecondSection(2), A::SecondSection(3),
            A::Finish(4),
            A::Arm, A::WaitStart, A::FirstSection(0), A::FirstSection(1), A::FirstSection(2), A::FirstSection(3),
            A::ReachMidway(4), A::WaitRelease,
            A::SecondSection(0), A::SecondSection(1), A::SecondSection(2), A::SecondSection(3),
            A::SecondSection(4), A::Finish(5),
            A::Exit,
        ]
    );
}

#[test]
fn worker_with_no_rounds_exits_at_once() {
    let pos = WorkerPosition { round: 0, stage: WorkerStage::Init, section: 0 };
    assert_eq!(worker_step(0, pos, 0, 0, 0), (pos, WorkerAction::Exit));
}
