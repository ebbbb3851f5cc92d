use tgoskits::kallsyms::KallsymsTable;
use tgoskits::kallsyms_data::{escaped_rust_string, filter_nm_output};

#[test]
fn keeps_code_and_data_symbols() {
    let nm = "0000000000001000 T _start\n\
              0000000000001010 t .Ltmp0\n\
              0000000000001020 t $x\n\
              0000000000001030 t $xx\n\
              0000000000002000 D data\n\
              0000000000003000 B bss\n\
              0000000000004000 R ro\n\
              0000000000005000 U undefined\n\
              0000000000006000 W weak\n\
              short line\n\
              0000000000007000 r last";
    assert_eq!(
        filter_nm_output(nm),
        "0000000000001000 T _start\n\
         0000000000001030 t $xx\n\
         0000000000002000 D data\n\
         0000000000003000 B bss\n\
         0000000000004000 R ro\n\
         0000000000007000 r last\n"
    );
}

#[test]
fn carriage_returns_before_line_breaks_are_dropped() {
    assert_eq!(filter_nm_output("10 T a\r\n20 d b\r"), "10 T a\n20 d b\r\n");
    assert_eq!(filter_nm_output(""), "");
    assert_eq!(filter_nm_output("\n\n"), "");
}

#[test]
fn filtered_text_loads_as_symbol_table() {
    let nm = "ffffffff80001000 T main\nffffffff80000000 U printf\nffffffff80000800 t helper\n";
    let table = KallsymsTable::from_kallsyms_str(&filter_nm_output(nm));
    assert_eq!(table.len(), 2);
    assert_eq!(table.lookup_name("printf"), None);
    assert_eq!(table.lookup_address(0xffffffff80000900), Some(("helper", 0x100)));
}

#[test]
fn escapes_as_rust_literal() {
    assert_eq!(escaped_rust_string("a\"b\\c\n\r\t"), "\"a\\\"b\\\\c\\n\\r\\t\"");
    assert_eq!(escaped_rust_string("\u{1}\u{7f}\u{9f}é"), "\"\\u{0001}\\u{007f}\\u{009f}é\"");
    assert_eq!(escaped_rust_string(""), "\"\"");
}
