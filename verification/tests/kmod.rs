use tgoskits::kmod::{hello_exit, hello_init, kebpf_exit, kebpf_init, push_joined_values};

#[test]
fn hello_init_prints_greeting_and_values() {
    let mut out = String::new();
    let r = hello_init(&mut out);
    assert_eq!(r, 0);
    assert_eq!(out, "Hello, Kernel Module!\nVector contents: [1, 2, 3, 4, 5]\n");
}

#[test]
fn hello_init_appends_to_what_was_written() {
    let mut out = String::from("> ");
    hello_init(&mut out);
    assert!(out.starts_with("> Hello, Kernel Module!\n"));
}

#[test]
fn hello_exit_prints_farewell() {
    let mut out = String::new();
    hello_exit(&mut out);
    assert_eq!(out, "Goodbye, Kernel Module!\n");
}

#[test]
fn joined_values_handles_signs_and_edges() {
    let mut out = String::new();
    push_joined_values(&mut out, &[]);
    assert_eq!(out, "");
    push_joined_values(&mut out, &[-7]);
    assert_eq!(out, "-7");
    let mut out = String::new();
    push_joined_values(&mut out, &[i32::MIN, 0, i32::MAX, 10]);
    assert_eq!(out, "-2147483648, 0, 2147483647, 10");
}

#[test]
fn kebpf_module_greets_and_says_goodbye() {
    let mut out = String::new();
    assert_eq!(kebpf_init(&mut out), 0);
    kebpf_exit(&mut out);
    assert_eq!(out, "Hello, eBPF Kernel Module!\nGoodbye, eBPF Kernel Module!\n");
}
