use tgoskits::bpf::{bpf_route, KebpfError, KebpfRoute};
use tgoskits::bpf::{perf_parks_poller, perf_poll_events, perf_write_early_result, perf_write_outcome};
use tgoskits::poll::IoEvents;
use tgoskits::bpf::{
    sys_bpf, sys_perf_event_open, BpfError, BpfRegistry, BPF_LINK_CREATE, BPF_MAP_CREATE,
    BPF_MAP_LOOKUP_ELEM, BPF_OBJ_PIN, BPF_PROG_LOAD, BPF_RAW_TRACEPOINT_OPEN,
};

#[test]
fn map_and_prog_ids_are_sequential() {
    let mut reg = BpfRegistry::new();
    assert_eq!(sys_bpf(&mut reg, BPF_MAP_CREATE, 0, 0), Ok(0));
    assert_eq!(sys_bpf(&mut reg, BPF_MAP_CREATE, 0, 0), Ok(1));
    assert_eq!(sys_bpf(&mut reg, BPF_PROG_LOAD, 0, 0), Ok(0));
    assert_eq!(sys_bpf(&mut reg, BPF_MAP_CREATE, 0, 0), Ok(2));
    assert_eq!(reg.next_map_id(), 3);
    assert_eq!(reg.next_prog_id(), 1);
}

#[test]
fn other_commands_are_unsupported() {
    let mut reg = BpfRegistry::new();
    for cmd in [BPF_MAP_LOOKUP_ELEM, BPF_OBJ_PIN, BPF_RAW_TRACEPOINT_OPEN, BPF_LINK_CREATE, 99] {
        assert_eq!(sys_bpf(&mut reg, cmd, 0, 0), Err(BpfError::Unsupported));
    }
    assert_eq!(reg.next_map_id(), 0);
    assert_eq!(reg.next_prog_id(), 0);
}

#[test]
fn perf_event_open_is_unsupported() {
    assert_eq!(sys_perf_event_open(0, -1, 0, -1, 0), Err(BpfError::Unsupported));
}

#[test]
fn kebpf_command_table() {
    assert_eq!(bpf_route(0), Ok(KebpfRoute::MapCreate));
    assert_eq!(bpf_route(1), Ok(KebpfRoute::MapLookupElem));
    assert_eq!(bpf_route(2), Ok(KebpfRoute::MapUpdateElem));
    assert_eq!(bpf_route(5), Ok(KebpfRoute::ProgLoad));
    assert_eq!(bpf_route(17), Ok(KebpfRoute::RawTracepointOpen));
    assert_eq!(bpf_route(22), Ok(KebpfRoute::MapFreeze));
    assert_eq!(bpf_route(18), Ok(KebpfRoute::Refused));
    assert_eq!(bpf_route(28), Ok(KebpfRoute::Refused));
    assert_eq!(bpf_route(15), Ok(KebpfRoute::Refused));
    assert_eq!(bpf_route(6), Ok(KebpfRoute::Unimplemented));
    assert_eq!(bpf_route(37), Ok(KebpfRoute::Unimplemented));
    assert_eq!(bpf_route(38), Err(KebpfError::InvalidInput));
}

#[test]
fn perf_write_outcome_maps_errors_and_wakes_enabled_events() {
    assert_eq!(perf_write_outcome(Ok(()), true), (Ok(()), true));
    assert_eq!(perf_write_outcome(Ok(()), false), (Ok(()), false));
    assert_eq!(perf_write_outcome(Err(()), true), (Err(BpfError::InvalidInput), false));
}

#[test]
fn perf_poll_reports_readable_only_with_a_record() {
    assert_eq!(perf_poll_events(true).bits(), 1);
    assert_eq!(perf_poll_events(false).bits(), 0);
    assert!(perf_parks_poller(&IoEvents::from_bits(1 | 4)));
    assert!(!perf_parks_poller(&IoEvents::from_bits(4)));
}

#[test]
fn perf_write_before_mapping_is_dropped() {
    assert_eq!(perf_write_early_result(false), Some(Ok(())));
    assert_eq!(perf_write_early_result(true), None);
}
