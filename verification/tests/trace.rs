use tgoskits::trace::{
    common_trace_pipe_read, process_name, PipeRead, RecordQueue, TraceCmdLineFile, TraceFile,
    TracePipeFile, TraceSnapshot,
};

fn queue(records: &[&str]) -> RecordQueue {
    let mut q = RecordQueue::new();
    for r in records {
        q.push(r.as_bytes().to_vec());
    }
    q
}

#[test]
fn reads_whole_records_that_fit() {
    let mut q = queue(&["abc\n", "defg\n", "hi\n"]);
    let mut buf = [b'.'; 10];
    let n = common_trace_pipe_read(&mut q, &mut buf);
    assert_eq!(n, 9);
    assert_eq!(&buf, b"abc\ndefg\n.");
    let mut buf = [0u8; 10];
    assert_eq!(common_trace_pipe_read(&mut q, &mut buf), 3);
    assert_eq!(&buf[..3], b"hi\n");
    assert!(q.is_empty());
}

#[test]
fn record_too_long_stays_queued() {
    let mut q = queue(&["0123456789"]);
    let mut buf = [0u8; 4];
    assert_eq!(common_trace_pipe_read(&mut q, &mut buf), 0);
    assert!(!q.is_empty());
}

#[test]
fn pipe_readable_when_not_empty() {
    let file = TracePipeFile;
    assert!(!file.readable(&RecordQueue::new()));
    assert!(file.readable(&queue(&["x"])));
}

#[test]
fn trace_file_shows_header_then_records() {
    let mut f = TraceFile::new();
    let snap = || TraceSnapshot {
        header: b"# hdr\n".to_vec(),
        records: queue(&["r1\n", "r2\n"]),
    };
    let mut buf = [0u8; 4];
    assert_eq!(f.read_at(snap(), &mut buf, 0), 4);
    assert_eq!(&buf, b"# hd");
    assert_eq!(f.read_at(snap(), &mut buf, 4), 2);
    assert_eq!(&buf[..2], b"r\n");
    let mut buf = [0u8; 16];
    assert_eq!(f.read_at(snap(), &mut buf, 6), 6);
    assert_eq!(&buf[..6], b"r1\nr2\n");
    assert_eq!(f.read_at(snap(), &mut buf, 12), 0);
}

#[test]
fn trace_write_clears_pipe() {
    let f = TraceFile::new();
    let mut pipe = queue(&["a", "b"]);
    assert_eq!(f.write_at(&mut pipe, b"anything"), 8);
    assert!(pipe.is_empty());
}

#[test]
fn cmdline_file_restarts_at_offset_zero() {
    let mut f = TraceCmdLineFile::new();
    let mut buf = [0u8; 8];
    assert_eq!(f.read_at(queue(&["1 sh\n", "2 init\n"]), &mut buf, 0), 5);
    assert_eq!(&buf[..5], b"1 sh\n");
    assert_eq!(f.read_at(queue(&[]), &mut buf, 5), 7);
    assert_eq!(&buf[..7], b"2 init\n");
    assert_eq!(f.read_at(queue(&["3 x\n"]), &mut buf, 12), 0);
    assert_eq!(f.read_at(queue(&["3 x\n"]), &mut buf, 0), 4);
}

#[test]
fn process_name_is_basename_of_first_word() {
    assert_eq!(process_name("/bin/busybox sh -c x"), "busybox");
    assert_eq!(process_name("init"), "init");
    assert_eq!(process_name("/usr/bin/"), "");
    assert_eq!(process_name(""), "");
    assert_eq!(process_name("a/b c/d"), "b");
}

#[test]
fn reader_with_room_gets_everything() {
    let mut q = queue(&["one\n", "two\n", "three\n"]);
    let mut buf = [0u8; 14];
    assert_eq!(common_trace_pipe_read(&mut q, &mut buf), 14);
    assert_eq!(&buf, b"one\ntwo\nthree\n");
    assert!(q.is_empty());
}

#[test]
fn trace_pipe_read_waits_when_nothing_fits() {
    let file = TracePipeFile;
    let mut q = queue(&["abc\n", "de\n"]);
    let mut buf = [0u8; 6];
    assert_eq!(file.read_at(&mut q, &mut buf), PipeRead::Done(4));
    assert_eq!(&buf[..4], b"abc\n");
    let mut small = [0u8; 2];
    assert_eq!(file.read_at(&mut q, &mut small), PipeRead::Wait);
    let mut empty = RecordQueue::new();
    assert_eq!(file.read_at(&mut empty, &mut buf), PipeRead::Wait);
}
