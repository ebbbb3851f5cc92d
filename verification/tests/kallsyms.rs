use tgoskits::kallsyms::{
    is_kallsyms_ready, kallsyms_format_all, kallsyms_init, kallsyms_lookup_address,
    kallsyms_lookup_name, Kallsyms, KallsymsTable,
};

const SAMPLE: &str = "ffffffff80001000 T _start\n\
                      ffffffff80000000 t early_init\n\
                      ffffffff80002000 D data_start\n";

#[test]
fn parses_and_sorts_by_address() {
    let table = KallsymsTable::from_kallsyms_str(SAMPLE);
    assert_eq!(table.len(), 3);
    assert_eq!(
        table.format_all(),
        "ffffffff80000000 t early_init\nffffffff80001000 T _start\nffffffff80002000 D data_start\n"
    );
}

#[test]
fn skips_malformed_and_blank_lines() {
    let data = "\n   \nnot_hex T foo\nffff T\n10 t bar\n  20 T baz qux  \r\n+30 r plus\n-40 r minus\n";
    let table = KallsymsTable::from_kallsyms_str(data);
    assert_eq!(table.len(), 3);
    assert_eq!(table.lookup_name("bar"), Some(0x10));
    assert_eq!(table.lookup_name("baz qux"), Some(0x20));
    assert_eq!(table.lookup_name("plus"), Some(0x30));
    assert_eq!(table.lookup_name("minus"), None);
    assert_eq!(table.lookup_name("foo"), None);
}

#[test]
fn overflowing_address_is_skipped() {
    let table = KallsymsTable::from_kallsyms_str("10000000000000000 T big\nffffffffffffffff T top\n");
    assert_eq!(table.len(), 1);
    assert_eq!(table.lookup_name("top"), Some(u64::MAX));
    assert_eq!(table.lookup_address(u64::MAX), Some(("top", 0)));
}

#[test]
fn empty_type_field_reads_as_question_mark() {
    let table = KallsymsTable::from_kallsyms_str("abc  name\n");
    assert_eq!(table.format_all(), "0000000000000abc ? name\n");
}

#[test]
fn non_ascii_type_keeps_its_first_byte() {
    let table = KallsymsTable::from_kallsyms_str("1 é x\n");
    // The first byte of 'é' (U+00E9) in UTF-8 is 0xC3, printed as 'Ã'.
    assert_eq!(table.format_all(), "0000000000000001 \u{c3} x\n");
}

#[test]
fn lookup_address_finds_the_covering_symbol() {
    let table = KallsymsTable::from_kallsyms_str(SAMPLE);
    assert_eq!(table.lookup_address(0xffffffff80000000), Some(("early_init", 0)));
    assert_eq!(table.lookup_address(0xffffffff80000010), Some(("early_init", 0x10)));
    assert_eq!(table.lookup_address(0xffffffff80001234), Some(("_start", 0x234)));
    assert_eq!(table.lookup_address(0xffffffff80005000), Some(("data_start", 0x3000)));
    assert_eq!(table.lookup_address(0x1000), None);
}

#[test]
fn lookup_name_returns_first_match() {
    let table = KallsymsTable::from_kallsyms_str("30 t dup\n10 t dup\n20 T other\n");
    assert_eq!(table.lookup_name("dup"), Some(0x10));
    assert_eq!(table.lookup_name("missing"), None);
}

#[test]
fn equal_addresses_keep_their_order() {
    let table = KallsymsTable::from_kallsyms_str("10 t first\n5 t low\n10 t second\n");
    assert_eq!(
        table.format_all(),
        "0000000000000005 t low\n0000000000000010 t first\n0000000000000010 t second\n"
    );
}

#[test]
fn service_starts_empty() {
    let k = Kallsyms::new();
    assert!(!is_kallsyms_ready(&k));
    assert_eq!(kallsyms_lookup_address(&k, 0x10), None);
    assert_eq!(kallsyms_lookup_name(&k, "x"), None);
    assert_eq!(kallsyms_format_all(&k), None);
}

#[test]
fn blank_data_leaves_service_empty() {
    let mut k = Kallsyms::new();
    kallsyms_init(&mut k, "  \n\t ");
    assert!(!is_kallsyms_ready(&k));
}

#[test]
fn init_installs_table() {
    let mut k = Kallsyms::new();
    kallsyms_init(&mut k, SAMPLE);
    assert!(is_kallsyms_ready(&k));
    assert_eq!(kallsyms_lookup_name(&k, "_start"), Some(0xffffffff80001000));
    assert_eq!(
        kallsyms_lookup_address(&k, 0xffffffff80001008),
        Some(("_start", 8))
    );
    assert_eq!(
        kallsyms_format_all(&k).unwrap(),
        "ffffffff80000000 t early_init\nffffffff80001000 T _start\nffffffff80002000 D data_start\n"
    );
}

#[test]
fn exact_address_has_offset_zero() {
    let table = KallsymsTable::from_kallsyms_str(SAMPLE);
    for name in ["early_init", "_start", "data_start"] {
        let addr = table.lookup_name(name).unwrap();
        assert_eq!(table.lookup_address(addr), Some((name, 0)));
    }
}

#[test]
fn rendering_reads_back_as_the_same_table() {
    let table = KallsymsTable::from_kallsyms_str(SAMPLE);
    let text = table.format_all();
    let again = KallsymsTable::from_kallsyms_str(&text);
    assert_eq!(again.len(), table.len());
    assert_eq!(again.format_all(), text);
    assert_eq!(again.lookup_name("data_start"), table.lookup_name("data_start"));
}

#[test]
fn hex_parsing_edges() {
    let table = KallsymsTable::from_kallsyms_str("+ T plus_only\n0x10 T prefixed\nAbC T mixed\n");
    assert_eq!(table.len(), 1);
    assert_eq!(table.lookup_name("mixed"), Some(0xabc));
}
