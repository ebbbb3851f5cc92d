use tgoskits::tty::{Console, ConsoleState};

#[test]
fn plain_text_passes_through() {
    let mut state = ConsoleState::new();
    let console = Console;
    assert_eq!(console.write(&mut state, b"hello\n"), b"hello\n".to_vec());
    let mut buf = [0u8; 4];
    let mut reader = Console;
    assert_eq!(reader.read(&mut state, &mut buf), 0);
}

#[test]
fn cursor_query_is_answered_not_sent() {
    let mut state = ConsoleState::new();
    let console = Console;
    let out = console.write(&mut state, b"a\x1b[6nb");
    assert_eq!(out, b"ab".to_vec());
    let mut buf = [0u8; 16];
    let mut reader = Console;
    let n = reader.read(&mut state, &mut buf);
    assert_eq!(&buf[..n], b"\x1b[1;1R");
    assert_eq!(reader.read(&mut state, &mut buf), 0);
}

#[test]
fn reply_is_read_in_pieces() {
    let mut state = ConsoleState::new();
    Console.write(&mut state, b"\x1b[6n");
    let mut reader = Console;
    let mut small = [0u8; 4];
    assert_eq!(reader.read(&mut state, &mut small), 4);
    assert_eq!(&small, b"\x1b[1;");
    let mut rest = [0xffu8; 4];
    assert_eq!(reader.read(&mut state, &mut rest), 2);
    assert_eq!(rest, [b'1', b'R', 0xff, 0xff]);
}

#[test]
fn other_sequences_pass_whole() {
    let mut state = ConsoleState::new();
    let out = Console.write(&mut state, b"\x1b[1;31mred\x1b[0m");
    assert_eq!(out, b"\x1b[1;31mred\x1b[0m".to_vec());
}

#[test]
fn escape_without_bracket_is_kept() {
    let mut state = ConsoleState::new();
    assert_eq!(Console.write(&mut state, b"\x1bx"), b"\x1bx".to_vec());
}

#[test]
fn sequence_split_across_writes() {
    let mut state = ConsoleState::new();
    assert_eq!(Console.write(&mut state, b"\x1b["), Vec::<u8>::new());
    assert_eq!(Console.write(&mut state, b"6"), Vec::<u8>::new());
    assert_eq!(Console.write(&mut state, b"n!"), b"!".to_vec());
    let mut buf = [0u8; 8];
    assert_eq!(Console.read(&mut state, &mut buf), 6);
}

#[test]
fn long_parameters_are_cut_to_eight_bytes() {
    let mut state = ConsoleState::new();
    let out = Console.write(&mut state, b"\x1b[1234567890m");
    assert_eq!(out, b"\x1b[12345678m".to_vec());
}
