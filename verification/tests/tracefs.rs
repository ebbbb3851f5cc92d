use tgoskits::tracefs::{event_files, group_events, str_lt, tracing_root_files};

fn tps(pairs: &[(&str, &str)]) -> Vec<(String, String)> {
    pairs
        .iter()
        .map(|(s, e)| (s.to_string(), e.to_string()))
        .collect()
}

#[test]
fn tracing_root_lists_control_files_with_permissions() {
    let files = tracing_root_files();
    assert_eq!(
        files,
        vec![
            ("saved_cmdlines_size", 0o640),
            ("trace_pipe", 0o440),
            ("saved_cmdlines", 0o440),
            ("trace", 0o640),
        ]
    );
}

#[test]
fn event_directory_lists_enable_format_id_filter() {
    let files = event_files();
    assert_eq!(
        files,
        vec![("enable", 0o640), ("format", 0o440), ("id", 0o440), ("filter", 0o640)]
    );
}

#[test]
fn str_lt_is_string_order() {
    assert!(str_lt("abc", "abd"));
    assert!(str_lt("ab", "abc"));
    assert!(!str_lt("abc", "ab"));
    assert!(!str_lt("abc", "abc"));
    assert!(str_lt("", "a"));
    assert!(!str_lt("b", "a"));
    assert!(str_lt("Z", "a"));
}

#[test]
fn groups_events_by_subsystem_in_name_order() {
    let input = tps(&[
        ("syscalls", "sys_enter_openat"),
        ("irq", "irq_handler_entry"),
        ("syscalls", "sys_exit_openat"),
        ("block", "block_rq_issue"),
        ("irq", "irq_handler_exit"),
    ]);
    let dirs = group_events(&input);
    let names: Vec<&str> = dirs.iter().map(|d| d.name.as_str()).collect();
    assert_eq!(names, vec!["block", "irq", "syscalls"]);
    assert_eq!(dirs[0].events, vec!["block_rq_issue".to_string()]);
    assert_eq!(
        dirs[1].events,
        vec!["irq_handler_entry".to_string(), "irq_handler_exit".to_string()]
    );
    assert_eq!(
        dirs[2].events,
        vec!["sys_enter_openat".to_string(), "sys_exit_openat".to_string()]
    );
}

#[test]
fn no_tracepoints_give_no_subsystems() {
    let dirs = group_events(&Vec::new());
    assert!(dirs.is_empty());
}
