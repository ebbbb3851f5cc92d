use tgoskits::trap::{
    per_cpu_trap_init, tlbrentry_addr, vint_size, ExceptionHandlers, TABLE_SIZE, VECSIZE,
};

#[test]
fn vector_spacing_code() {
    assert_eq!(vint_size(), 7);
}

#[test]
fn tlbr_entry_is_vector_80() {
    assert_eq!(
        tlbrentry_addr(0x9000_0000_0001_0000),
        0x9000_0000_0001_0000 + 80 * 0x200
    );
}

#[test]
fn new_table_is_zero() {
    let table = ExceptionHandlers::new();
    assert_eq!(table.as_bytes().len(), TABLE_SIZE);
    assert!(table.as_bytes().iter().all(|b| *b == 0));
}

#[test]
fn boot_cpu_installs_handlers() {
    let mut table = ExceptionHandlers::new();
    let mut reserved = vec![0xaau8; VECSIZE];
    reserved[3] = 1;
    let interrupt = vec![0x55u8; VECSIZE + 7];
    per_cpu_trap_init(&mut table, true, &reserved, &interrupt);
    let bytes = table.as_bytes();
    for i in 0..128 {
        let slot = &bytes[i * VECSIZE..(i + 1) * VECSIZE];
        if i < 64 {
            assert_eq!(slot, &reserved[..]);
        } else if i <= 78 {
            assert_eq!(slot, &interrupt[..VECSIZE]);
        } else {
            assert!(slot.iter().all(|b| *b == 0));
        }
    }
}

#[test]
fn secondary_cpu_leaves_table_alone() {
    let mut table = ExceptionHandlers::new();
    let code = vec![0x11u8; VECSIZE];
    table.set_handler(100, &code);
    per_cpu_trap_init(&mut table, false, &[0x22u8; VECSIZE], &[0x33u8; VECSIZE]);
    let bytes = table.as_bytes();
    assert!(bytes[100 * VECSIZE..101 * VECSIZE].iter().all(|b| *b == 0x11));
    assert!(bytes[..100 * VECSIZE].iter().all(|b| *b == 0));
}

#[test]
fn set_handler_touches_one_vector() {
    let mut table = ExceptionHandlers::new();
    table.set_handler(5, &[7u8; VECSIZE]);
    let bytes = table.as_bytes();
    assert!(bytes[5 * VECSIZE..6 * VECSIZE].iter().all(|b| *b == 7));
    assert!(bytes[..5 * VECSIZE].iter().all(|b| *b == 0));
    assert!(bytes[6 * VECSIZE..].iter().all(|b| *b == 0));
}
