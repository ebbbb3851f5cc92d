use tgoskits::irq::{handle_irq, register_handler, IrqTable};
use tgoskits::registry::{
    lookup_syscall_handler, register_syscall_handler, unregister_syscall_handler,
    SyscallRegistry,
};

fn h1(args: [usize; 6]) -> isize {
    args[0] as isize
}

fn h2(_args: [usize; 6]) -> isize {
    -1
}

#[test]
fn lookup_finds_last_registered_handler() {
    let mut reg: SyscallRegistry<fn([usize; 6]) -> isize> = SyscallRegistry::new();
    assert!(lookup_syscall_handler(&reg, 280).is_none());
    assert!(register_syscall_handler(&mut reg, 280, h1).is_none());
    let found = lookup_syscall_handler(&reg, 280).unwrap();
    assert_eq!(found([5, 0, 0, 0, 0, 0]), 5);
    let prev = register_syscall_handler(&mut reg, 280, h2).unwrap();
    assert_eq!(prev([9, 0, 0, 0, 0, 0]), 9);
    assert_eq!(lookup_syscall_handler(&reg, 280).unwrap()([0; 6]), -1);
}

#[test]
fn unregister_restores_builtin() {
    let mut reg: SyscallRegistry<fn([usize; 6]) -> isize> = SyscallRegistry::new();
    register_syscall_handler(&mut reg, 280, h1);
    register_syscall_handler(&mut reg, 1, h2);
    let removed = unregister_syscall_handler(&mut reg, 280).unwrap();
    assert_eq!(removed([3, 0, 0, 0, 0, 0]), 3);
    assert!(lookup_syscall_handler(&reg, 280).is_none());
    assert!(unregister_syscall_handler(&mut reg, 280).is_none());
    assert!(lookup_syscall_handler(&reg, 1).is_some());
}

#[test]
fn irq_handlers_by_number() {
    let mut table: IrqTable<&str> = IrqTable::new();
    assert_eq!(handle_irq(&table, 3), None);
    register_handler(&mut table, 3, "timer");
    register_handler(&mut table, 4, "uart");
    register_handler(&mut table, 3, "timer2");
    assert_eq!(handle_irq(&table, 3), Some(&"timer2"));
    assert_eq!(handle_irq(&table, 4), Some(&"uart"));
    assert_eq!(handle_irq(&table, 5), None);
}
