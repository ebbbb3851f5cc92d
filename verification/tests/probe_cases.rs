use tgoskits::guest::{decode_record, dze_outcome, CpuRecord, ReturnReason};
use tgoskits::probe_cases::{
    currentel_diff, currentel_entry_check, currentel_resume_check, dze_diff, dze_shared_init,
    mpidr_diff, sort_records, u64_from_le, u64_to_le, uma_diff, unique_raw_count, CaseFailure,
    CurrentElReport,
};

fn rec(cpu: usize, observed: usize, raw: u64) -> CpuRecord {
    CpuRecord { logical_cpu_id: cpu, observed_cpu_id: observed, samples: [raw, raw, raw] }
}

#[test]
fn le_words_match_std() {
    for v in [0u64, 1, 0x1234_5678_9abc_def0, u64::MAX, 0x8000_0000_0000_0000] {
        let bytes = u64_to_le(v);
        assert_eq!(bytes, v.to_le_bytes().to_vec());
        assert_eq!(u64_from_le(&bytes, 0), v);
    }
    let mut page = vec![0xaau8; 3];
    page.extend_from_slice(&0x0102_0304_0506_0708u64.to_le_bytes());
    assert_eq!(u64_from_le(&page, 3), 0x0102_0304_0506_0708);
}

#[test]
fn dze_shared_page_holds_buffer_address() {
    let page = dze_shared_init(0x20_000);
    assert_eq!(page.len(), 24);
    assert!(page[..16].iter().all(|b| *b == 0));
    assert_eq!(u64_from_le(&page, 16), 0x20_000);
    assert_eq!(&page[16..24], &0x20_000u64.to_le_bytes());
}

#[test]
fn currentel_checks_report_the_first_failed_step() {
    assert_eq!(
        currentel_entry_check(0, true),
        Some(CaseFailure {
            stage: "enter_el0",
            detail: "user code did not reach the EL0 probe marker"
        })
    );
    assert_eq!(
        currentel_entry_check(1, false),
        Some(CaseFailure {
            stage: "currentel_el0_access",
            detail: "expected EL0 CurrentEL access to trap as an exception"
        })
    );
    assert_eq!(currentel_entry_check(1, true), None);
    assert_eq!(
        currentel_resume_check(1, true),
        Some(CaseFailure {
            stage: "resume_after_fault",
            detail: "user code did not resume to the post-fault path"
        })
    );
    assert_eq!(
        currentel_resume_check(2, false),
        Some(CaseFailure {
            stage: "resume_after_fault",
            detail: "expected resumed EL0 path to exit via SVC"
        })
    );
    assert_eq!(currentel_resume_check(2, true), None);
}

#[test]
fn currentel_diff_renders_every_observation() {
    let report = CurrentElReport {
        el1_before: 4,
        raw_after_exception: 0,
        phase_after_exception: 1,
        raw_after_resume: 0,
        phase_after_resume: 2,
        first_reason: ReturnReason::Exception {
            kind: "Unknown".to_string(),
            syndrome: Some((0x2000000, 0)),
        },
        second_reason: ReturnReason::Syscall,
        el1_after: 4,
    };
    assert_eq!(
        currentel_diff(&report),
        "{\"el1_before\":{\"raw\":4,\"decoded_el\":1},\"el0_probe\":{\"raw_after_exception\":0,\
         \"phase_after_exception\":1,\"raw_after_resume\":0,\"phase_after_resume\":2},\
         \"first_return_reason\":{\"kind\":\"exception\",\"exception_kind\":\"Unknown\",\
         \"esr\":33554432,\"far\":0},\"second_return_reason\":\"syscall\",\
         \"el1_after\":{\"raw\":4,\"decoded_el\":1}}"
    );
}

#[test]
fn uma_diff_renders_both_runs() {
    assert_eq!(
        uma_diff(true, 1, false, 2),
        "{\"trap_when_clear\":{\"trapped\":true,\"phase\":1},\
         \"allow_when_set\":{\"trapped\":false,\"phase\":2}}"
    );
}

#[test]
fn dze_diff_renders_both_runs() {
    let clear = dze_outcome(true, 0x14, 1, &[0x5a; 64], 0x5a);
    let set = dze_outcome(false, 0x4, 2, &[0; 64], 0x5a);
    assert_eq!(
        dze_diff(&clear, &set),
        "{\"trap_when_clear\":{\"trapped\":true,\"phase\":1,\"dzp\":true,\"buffer_unchanged\":true},\
         \"allow_when_set\":{\"trapped\":false,\"phase\":2,\"dzp\":false,\"buffer_all_zero\":true}}"
    );
}

#[test]
fn records_sort_by_cpu_stably() {
    let records = vec![rec(2, 2, 7), rec(0, 0, 5), rec(1, 1, 6), rec(0, 3, 9)];
    let sorted = sort_records(&records);
    let keys: Vec<(usize, usize)> =
        sorted.iter().map(|r| (r.logical_cpu_id, r.observed_cpu_id)).collect();
    assert_eq!(keys, vec![(0, 0), (0, 3), (1, 1), (2, 2)]);
}

#[test]
fn unique_raw_count_counts_distinct_first_samples() {
    assert_eq!(unique_raw_count(&vec![]), 0);
    let records = vec![rec(0, 0, 5), rec(1, 1, 5), rec(2, 2, 6)];
    assert_eq!(unique_raw_count(&records), 2);
}

#[test]
fn mpidr_diff_lists_records_in_cpu_order() {
    let records = vec![rec(1, 1, 0x8000_0001), rec(0, 0, 0x8000_0000)];
    let expected = format!(
        "{{\"cpu_count\":2,\"unique_raw_count\":2,\"records\":[{},{}]}}",
        decode_record(&records[1]),
        decode_record(&records[0])
    );
    assert_eq!(mpidr_diff(2, &records), expected);
    assert_eq!(mpidr_diff(0, &vec![]), "{\"cpu_count\":0,\"unique_raw_count\":0,\"records\":[]}");
}
