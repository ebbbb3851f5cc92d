use tgoskits::kprobe::{
    aarch64_ptregs_write_back, aarch64_trapframe_to_ptregs, riscv_ptregs_write_back,
    riscv_trapframe_to_ptregs, tlb_flush_addresses, writable_window, x86_ptregs_write_back,
    x86_trapframe_to_ptregs, Aarch64TrapFrame, RiscvGeneralRegisters, RiscvTrapFrame,
    X86TrapFrame, KernelRawMutex, x86_finish_probe_trap, riscv_finish_probe_trap,
    aarch64_finish_probe_trap,
};

#[test]
fn window_covers_the_bytes() {
    assert_eq!(writable_window(0x1234, 4), (0x1000, 0x1000));
    assert_eq!(writable_window(0x1ffe, 4), (0x1000, 0x2000));
    assert_eq!(writable_window(0x3000, 0x1000), (0x3000, 0x1000));
}

#[test]
fn tlb_flush_one_address_per_page() {
    assert_eq!(tlb_flush_addresses(0x1000, 0x2000), vec![0x1000, 0x2000]);
    assert_eq!(tlb_flush_addresses(0x1000, 0x2001), vec![0x1000, 0x2000, 0x3000]);
    assert_eq!(tlb_flush_addresses(0x1000, 0), Vec::<usize>::new());
}

fn x86_frame() -> X86TrapFrame {
    X86TrapFrame {
        r15: 15, r14: 14, r13: 13, r12: 12, rbp: 0x7000, rbx: 3, r11: 11, r10: 10, r9: 9,
        r8: 8, rax: 1, rcx: 2, rdx: 4, rsi: 5, rdi: 6, rip: 0xffff_8000_0000_1000, cs: 8,
        rflags: 0x202, rsp: 0x7ff0, ss: 0x10,
    }
}

#[test]
fn x86_snapshot_round_trip() {
    let tf = x86_frame();
    let mut pt = x86_trapframe_to_ptregs(&tf);
    assert_eq!(pt.orig_rax, 0);
    assert_eq!(pt.rip, 0xffff_8000_0000_1000);
    let mut back = X86TrapFrame { rax: 99, ..tf };
    x86_ptregs_write_back(&pt, &mut back);
    assert_eq!(back, tf);
    pt.rip += 1;
    x86_ptregs_write_back(&pt, &mut back);
    assert_eq!(back.rip, tf.rip + 1);
}

#[test]
fn riscv_snapshot_round_trip() {
    let regs = RiscvGeneralRegisters {
        ra: 1, sp: 2, gp: 3, tp: 4, t0: 5, t1: 6, t2: 7, s0: 8, s1: 9, a0: 10, a1: 11, a2: 12,
        a3: 13, a4: 14, a5: 15, a6: 16, a7: 17, s2: 18, s3: 19, s4: 20, s5: 21, s6: 22,
        s7: 23, s8: 24, s9: 25, s10: 26, s11: 27, t3: 28, t4: 29, t5: 30, t6: 31,
    };
    let tf = RiscvTrapFrame { regs, sepc: 0x8020_0000, sstatus: 0x120 };
    let pt = riscv_trapframe_to_ptregs(&tf);
    assert_eq!((pt.epc, pt.status, pt.orig_a0, pt.badaddr, pt.cause), (0x8020_0000, 0x120, 10, 0, 0));
    let mut back = RiscvTrapFrame { sepc: 0, ..tf };
    riscv_ptregs_write_back(&pt, &mut back);
    assert_eq!(back, tf);
}

#[test]
fn aarch64_snapshot_round_trip() {
    let mut x = [0u64; 31];
    for (i, r) in x.iter_mut().enumerate() {
        *r = i as u64 * 3;
    }
    let tf = Aarch64TrapFrame { x, elr: 0x4000, spsr: 0x3c5 };
    let pt = aarch64_trapframe_to_ptregs(&tf);
    assert_eq!((pt.sp, pt.pc, pt.pstate, pt.orig_x0, pt.syscallno), (0, 0x4000, 0x3c5, 0, -1));
    let mut back = Aarch64TrapFrame { x: [7; 31], elr: 0, spsr: 0 };
    aarch64_ptregs_write_back(&pt, &mut back);
    assert_eq!(back.x, tf.x);
    assert_eq!((back.elr, back.spsr), (tf.elr, tf.spsr));
}

#[test]
fn raw_mutex_try_lock_excludes_until_unlock() {
    let mut m = KernelRawMutex::new();
    assert!(!m.is_locked());
    assert!(m.try_lock());
    assert!(m.is_locked());
    assert!(!m.try_lock());
    assert!(m.is_locked());
    m.unlock();
    assert!(!m.is_locked());
    m.lock();
    assert!(m.is_locked());
    assert!(!m.try_lock());
}

#[test]
fn claimed_trap_writes_back_and_unclaimed_keeps_frame() {
    let tf = x86_frame();
    let mut pt = x86_trapframe_to_ptregs(&tf);
    pt.rip += 1;
    pt.rax = 42;
    let mut kept = tf;
    assert!(!x86_finish_probe_trap(&pt, &mut kept, false));
    assert_eq!(kept, tf);
    let mut changed = tf;
    assert!(x86_finish_probe_trap(&pt, &mut changed, true));
    assert_eq!(changed.rip, tf.rip + 1);
    assert_eq!(changed.rax, 42);

    let mut x = [1u64; 31];
    x[0] = 5;
    let atf = Aarch64TrapFrame { x, elr: 0x8000, spsr: 0 };
    let mut apt = aarch64_trapframe_to_ptregs(&atf);
    apt.pc = 0x8004;
    let mut a = atf;
    assert!(!aarch64_finish_probe_trap(&apt, &mut a, false));
    assert_eq!(a.elr, 0x8000);
    assert!(aarch64_finish_probe_trap(&apt, &mut a, true));
    assert_eq!(a.elr, 0x8004);

    let regs = RiscvGeneralRegisters {
        ra: 1, sp: 2, gp: 3, tp: 4, t0: 5, t1: 6, t2: 7, s0: 8, s1: 9, a0: 10, a1: 11, a2: 12,
        a3: 13, a4: 14, a5: 15, a6: 16, a7: 17, s2: 18, s3: 19, s4: 20, s5: 21, s6: 22,
        s7: 23, s8: 24, s9: 25, s10: 26, s11: 27, t3: 28, t4: 29, t5: 30, t6: 31,
    };
    let rtf = RiscvTrapFrame { regs, sepc: 0x100, sstatus: 0x22 };
    let mut rpt = riscv_trapframe_to_ptregs(&rtf);
    rpt.epc = 0x104;
    let mut r = rtf;
    assert!(!riscv_finish_probe_trap(&rpt, &mut r, false));
    assert_eq!(r, rtf);
    assert!(riscv_finish_probe_trap(&rpt, &mut r, true));
    assert_eq!(r.sepc, 0x104);
}
