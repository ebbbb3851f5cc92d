use tgoskits::guest::{
    cache_line_range, decode_record, decoded_el, dze_outcome, error_diff, format_return_reason,
    json_result_record, mpidr_fields, resume_address, sctlr_configured, user_aspace_end,
    CpuRecord, ReturnReason, RESULT_BEGIN_MARKER, RESULT_END_MARKER, user_aspace_plan, PageAccess,
    AspaceStep, AspaceStage, PageSource,
};

#[test]
fn result_record_layout() {
    assert_eq!(RESULT_BEGIN_MARKER, "AXTEST_RESULT_BEGIN");
    assert_eq!(RESULT_END_MARKER, "AXTEST_RESULT_END");
    assert_eq!(
        json_result_record("cpu.x", "ok", "{\"a\":1}"),
        "{\"case_id\":\"cpu.x\",\"status\":\"ok\",\"diff\":{\"a\":1}}"
    );
    assert_eq!(
        error_diff("map_user_code", "failed"),
        "{\"stage\":\"map_user_code\",\"detail\":\"failed\"}"
    );
}

#[test]
fn current_el_decoding() {
    assert_eq!(decoded_el(0b0100), 1);
    assert_eq!(decoded_el(0b1000), 2);
    assert_eq!(decoded_el(0xffff_fff3), 0);
}

#[test]
fn sctlr_bits() {
    assert_eq!(sctlr_configured(0x30d0_0800, 1 << 9, true), 0x30d0_0a00);
    assert_eq!(sctlr_configured(0x30d0_4a00, 1 << 14, false), 0x30d0_0a00);
}

#[test]
fn mpidr_fields_and_record() {
    let raw: u64 = (0x12 << 32) | (1 << 30) | (1 << 24) | (0x34 << 16) | (0x56 << 8) | 0x78;
    let f = mpidr_fields(raw);
    assert_eq!((f.aff0, f.aff1, f.aff2, f.aff3, f.mt, f.u), (0x78, 0x56, 0x34, 0x12, true, true));
    let record = CpuRecord {
        logical_cpu_id: 1,
        observed_cpu_id: 1,
        samples: [0x8000_0001, 0x8000_0001, 0x8000_0001],
    };
    assert_eq!(
        decode_record(&record),
        "{\"logical_cpu_id\":1,\"observed_cpu_id\":1,\"samples\":[2147483649,2147483649,2147483649],\
         \"all_equal\":true,\"raw\":2147483649,\"aff0\":1,\"aff1\":0,\"aff2\":0,\"aff3\":0,\
         \"mt\":false,\"u\":false}"
    );
    let uneven = CpuRecord {
        logical_cpu_id: 0,
        observed_cpu_id: 3,
        samples: [0, 1, 0],
    };
    assert!(decode_record(&uneven).contains("\"all_equal\":false"));
}

#[test]
fn dze_summary() {
    let o = dze_outcome(true, 0x14, 1, &[0xa5; 64], 0xa5);
    assert!(o.trapped && o.dzp && o.buffer_unchanged && !o.buffer_all_zero);
    assert_eq!(o.phase, 1);
    let o = dze_outcome(false, 0x04, 2, &[0; 64], 0xa5);
    assert!(!o.dzp && o.buffer_all_zero && !o.buffer_unchanged);
}

#[test]
fn cache_lines_cover_range() {
    assert_eq!(cache_line_range(0x4000, 100), (0x4000, 0x4080));
    assert_eq!(cache_line_range(0x4010, 0x40), (0x4000, 0x4080));
    assert_eq!(cache_line_range(0x4000, 0), (0x4000, 0x4000));
}

#[test]
fn probe_aspace_end() {
    assert_eq!(user_aspace_end(0x4000, 0x8000, 0x10000, &[]), 0x11000);
    assert_eq!(user_aspace_end(0x4000, 0x8000, 0x10000, &[0xc000, 0x20000]), 0x21000);
    assert_eq!(user_aspace_end(0x30000, 0x8000, 0x10000, &[]), 0x31000);
}

#[test]
fn resume_after_fault() {
    assert_eq!(resume_address(0x4000, 0x1000, 0x1010), 0x4010);
    assert_eq!(resume_address(0x4000, 0x1010, 0x1000), 0x4000);
}

#[test]
fn return_reasons_as_json() {
    assert_eq!(format_return_reason(&ReturnReason::Syscall), "\"syscall\"");
    assert_eq!(format_return_reason(&ReturnReason::Interrupt), "\"interrupt\"");
    assert_eq!(format_return_reason(&ReturnReason::Unknown), "\"unknown\"");
    assert_eq!(
        format_return_reason(&ReturnReason::PageFault {
            addr: 4096,
            flags: "READ".to_string()
        }),
        "{\"kind\":\"page_fault\",\"addr\":4096,\"flags\":\"READ\"}"
    );
    assert_eq!(
        format_return_reason(&ReturnReason::Exception {
            kind: "Other".to_string(),
            syndrome: Some((0x2000000, 0))
        }),
        "{\"kind\":\"exception\",\"exception_kind\":\"Other\",\"esr\":33554432,\"far\":0}"
    );
    assert_eq!(
        format_return_reason(&ReturnReason::Exception {
            kind: "Breakpoint".to_string(),
            syndrome: None
        }),
        "{\"kind\":\"exception\",\"exception_kind\":\"Breakpoint\"}"
    );
}

#[test]
fn aspace_plan_maps_copies_then_protects() {
    let plan = user_aspace_plan(0x4000, 0x8000, 0x10000, &[0x20000]);
    assert_eq!(plan.base, 0x4000);
    assert_eq!(plan.size, 0x21000 - 0x4000);
    assert_eq!(plan.stack_top, 0x11000);
    assert_eq!(plan.shared_start, 0x8000);
    let rwx = PageAccess { read: true, write: true, execute: true, user: true };
    let rx = PageAccess { read: true, write: false, execute: true, user: true };
    let rw = PageAccess { read: true, write: true, execute: false, user: true };
    assert_eq!(
        plan.steps,
        vec![
            AspaceStep::MapPage { start: 0x4000, access: rwx, stage: AspaceStage::MapUserCode },
            AspaceStep::MapPage { start: 0x8000, access: rw, stage: AspaceStage::MapSharedPage },
            AspaceStep::MapPage { start: 0x10000, access: rw, stage: AspaceStage::MapUserStack },
            AspaceStep::MapPage { start: 0x20000, access: rw, stage: AspaceStage::MapExtraPage },
            AspaceStep::Write { start: 0x4000, source: PageSource::Code, stage: AspaceStage::CopyUserCode },
            AspaceStep::Write {
                start: 0x8000,
                source: PageSource::SharedInit,
                stage: AspaceStage::InitSharedPage
            },
            AspaceStep::Write {
                start: 0x20000,
                source: PageSource::Extra(0),
                stage: AspaceStage::InitExtraPage
            },
            AspaceStep::Protect { start: 0x4000, access: rx, stage: AspaceStage::ProtectUserCode },
        ]
    );
    assert_eq!(AspaceStage::MapExtraPage.as_str(), "map_extra_page");
    assert_eq!(AspaceStage::CreateUserAspace.as_str(), "create_user_aspace");
    let small = user_aspace_plan(0x4000, 0x8000, 0x10000, &[]);
    assert_eq!(small.size, 0x11000 - 0x4000);
    assert_eq!(small.steps.len(), 6);
}
