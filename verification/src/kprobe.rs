//! Kernel probes: the register snapshot that probe handlers see, taken
//! from the trap frame and written back after the handler ran, and the page
//! window that breakpoint insertion makes writable for a moment.

use vstd::prelude::*;

verus! {

/// The size of a small page.
pub const PAGE_SIZE_4K: usize = 0x1000;

/// The page-aligned window that covers `len` bytes at `address`: the start
/// rounded down and the end rounded up to 4 KiB, and the window's length.
pub fn writable_window(address: usize, len: usize) -> (w: (usize, usize))
    requires
        address + len + 0xfff <= usize::MAX,
    ensures
        w.0 == address & !0xfffusize,
        w.0 + w.1 == (address + len + 0xfff) as usize & !0xfffusize,
        w.0 <= address,
        address + len <= w.0 + w.1,
        w.0 % 4096 == 0,
        w.1 % 4096 == 0,
{
    let start = address & !0xfffusize;
    let end_raw = address + len + 0xfff;
    let end = end_raw & !0xfffusize;
    assert(start <= address && start % 4096 == 0) by (bit_vector)
        requires
            start == address & !0xfffusize,
    ;
    assert(end + 0xfff >= end_raw && end <= end_raw && end % 4096 == 0) by (bit_vector)
        requires
            end == end_raw & !0xfffusize,
    ;
    (start, end - start)
}

/// The addresses whose TLB entries `flush_tlb_range` drops: one per page
/// from `start` on, below `start + size`.
pub fn tlb_flush_addresses(start: usize, size: usize) -> (r: Vec<usize>)
    requires
        start + size + PAGE_SIZE_4K <= usize::MAX,
    ensures
        r@.len() == (size + 0xfff) / 0x1000,
        forall|k: int| 0 <= k < r@.len() ==> r@[k] == start + k * 0x1000,
{
    let mut r: Vec<usize> = Vec::new();
    let mut offset: usize = 0;
    while offset < size
        invariant
            offset == r@.len() * 0x1000,
            offset <= size + 0xfff,
            start + size + 0x1000 <= usize::MAX,
            r@.len() <= (size + 0xfff) / 0x1000,
            offset < size ==> r@.len() < (size + 0xfff) / 0x1000,
            offset >= size ==> r@.len() == (size + 0xfff) / 0x1000,
            forall|k: int| 0 <= k < r@.len() ==> r@[k] == start + k * 0x1000,
        decreases size + 0x1000 - offset,
    {
        r.push(start + offset);
        offset = offset + PAGE_SIZE_4K;
    }
    r
}


/// The spin lock that guards the probe manager. `lock` takes a free lock
/// and `try_lock` takes it only if it is free (the compare-exchange of
/// `false` to `true`); `unlock` frees it.
pub struct KernelRawMutex {
    locked: bool,
}

impl KernelRawMutex {
    /// Whether the lock is held.
    pub closed spec fn is_held(&self) -> bool {
        self.locked
    }

    /// A free lock (the `INIT` value).
    pub fn new() -> (m: Self)
        ensures
            !m.is_held(),
    {
        KernelRawMutex { locked: false }
    }

    /// Takes the lock. On a held lock the original spins until another
    /// CPU frees it; a single owner never sees that happen, so the lock
    /// must be free here.
    pub fn lock(&mut self)
        requires
            !old(self).is_held(),
        ensures
            final(self).is_held(),
    {
        self.locked = true;
    }

    /// Takes the lock if it is free; says whether it did. A held lock
    /// stays held.
    pub fn try_lock(&mut self) -> (acquired: bool)
        ensures
            acquired == !old(self).is_held(),
            final(self).is_held(),
    {
        if self.locked {
            false
        } else {
            self.locked = true;
            true
        }
    }

    /// Frees the lock, which the caller holds.
    pub fn unlock(&mut self)
        requires
            old(self).is_held(),
        ensures
            !final(self).is_held(),
    {
        self.locked = false;
    }

    /// Whether the lock is held.
    pub fn is_locked(&self) -> (r: bool)
        ensures
            r == self.is_held(),
    {
        self.locked
    }
}

/// The x86_64 trap frame fields that probes read and write.
#[derive(Clone, Copy, PartialEq, Eq, Debug, Structural)]
pub struct X86TrapFrame {
    pub r15: u64,
    pub r14: u64,
    pub r13: u64,
    pub r12: u64,
    pub rbp: u64,
    pub rbx: u64,
    pub r11: u64,
    pub r10: u64,
    pub r9: u64,
    pub r8: u64,
    pub rax: u64,
    pub rcx: u64,
    pub rdx: u64,
    pub rsi: u64,
    pub rdi: u64,
    pub rip: u64,
    pub cs: u64,
    pub rflags: u64,
    pub rsp: u64,
    pub ss: u64,
}

/// The x86_64 register snapshot handed to probe handlers (`pt_regs`).
#[derive(Clone, Copy, PartialEq, Eq, Debug, Structural)]
pub struct X86PtRegs {
    pub r15: usize,
    pub r14: usize,
    pub r13: usize,
    pub r12: usize,
    pub rbp: usize,
    pub rbx: usize,
    pub r11: usize,
    pub r10: usize,
    pub r9: usize,
    pub r8: usize,
    pub rax: usize,
    pub rcx: usize,
    pub rdx: usize,
    pub rsi: usize,
    pub rdi: usize,
    pub orig_rax: usize,
    pub rip: usize,
    pub cs: usize,
    pub rflags: usize,
    pub rsp: usize,
    pub ss: usize,
}

/// The x86_64 snapshot of a trap frame: every register as a `usize`, and
/// `orig_rax` 0.
pub open spec fn x86_snapshot(tf: X86TrapFrame) -> X86PtRegs {
    X86PtRegs {
        r15: tf.r15 as usize,
        r14: tf.r14 as usize,
        r13: tf.r13 as usize,
        r12: tf.r12 as usize,
        rbp: tf.rbp as usize,
        rbx: tf.rbx as usize,
        r11: tf.r11 as usize,
        r10: tf.r10 as usize,
        r9: tf.r9 as usize,
        r8: tf.r8 as usize,
        rax: tf.rax as usize,
        rcx: tf.rcx as usize,
        rdx: tf.rdx as usize,
        rsi: tf.rsi as usize,
        rdi: tf.rdi as usize,
        orig_rax: 0,
        rip: tf.rip as usize,
        cs: tf.cs as usize,
        rflags: tf.rflags as usize,
        rsp: tf.rsp as usize,
        ss: tf.ss as usize,
    }
}

/// The x86_64 trap frame after writing back a snapshot.
pub open spec fn x86_written_back(pt: X86PtRegs) -> X86TrapFrame {
    X86TrapFrame {
        r15: pt.r15 as u64,
        r14: pt.r14 as u64,
        r13: pt.r13 as u64,
        r12: pt.r12 as u64,
        rbp: pt.rbp as u64,
        rbx: pt.rbx as u64,
        r11: pt.r11 as u64,
        r10: pt.r10 as u64,
        r9: pt.r9 as u64,
        r8: pt.r8 as u64,
        rax: pt.rax as u64,
        rcx: pt.rcx as u64,
        rdx: pt.rdx as u64,
        rsi: pt.rsi as u64,
        rdi: pt.rdi as u64,
        rip: pt.rip as u64,
        cs: pt.cs as u64,
        rflags: pt.rflags as u64,
        rsp: pt.rsp as u64,
        ss: pt.ss as u64,
    }
}

/// Takes the x86_64 snapshot of a trap frame.
pub fn x86_trapframe_to_ptregs(tf: &X86TrapFrame) -> (r: X86PtRegs)
    ensures
        r == x86_snapshot(*tf),
{
    X86PtRegs {
        r15: tf.r15 as usize,
        r14: tf.r14 as usize,
        r13: tf.r13 as usize,
        r12: tf.r12 as usize,
        rbp: tf.rbp as usize,
        rbx: tf.rbx as usize,
        r11: tf.r11 as usize,
        r10: tf.r10 as usize,
        r9: tf.r9 as usize,
        r8: tf.r8 as usize,
        rax: tf.rax as usize,
        rcx: tf.rcx as usize,
        rdx: tf.rdx as usize,
        rsi: tf.rsi as usize,
        rdi: tf.rdi as usize,
        orig_rax: 0,
        rip: tf.rip as usize,
        cs: tf.cs as usize,
        rflags: tf.rflags as usize,
        rsp: tf.rsp as usize,
        ss: tf.ss as usize,
    }
}

/// Writes an x86_64 snapshot back into the trap frame.
pub fn x86_ptregs_write_back(pt: &X86PtRegs, tf: &mut X86TrapFrame)
    ensures
        *final(tf) == x86_written_back(*pt),
{
    tf.r15 = pt.r15 as u64;
    tf.r14 = pt.r14 as u64;
    tf.r13 = pt.r13 as u64;
    tf.r12 = pt.r12 as u64;
    tf.rbp = pt.rbp as u64;
    tf.rbx = pt.rbx as u64;
    tf.r11 = pt.r11 as u64;
    tf.r10 = pt.r10 as u64;
    tf.r9 = pt.r9 as u64;
    tf.r8 = pt.r8 as u64;
    tf.rax = pt.rax as u64;
    tf.rcx = pt.rcx as u64;
    tf.rdx = pt.rdx as u64;
    tf.rsi = pt.rsi as u64;
    tf.rdi = pt.rdi as u64;
    tf.rip = pt.rip as u64;
    tf.cs = pt.cs as u64;
    tf.rflags = pt.rflags as u64;
    tf.rsp = pt.rsp as u64;
    tf.ss = pt.ss as u64;
}

/// On x86_64, where every register fits in a `usize`, writing back an
/// unchanged snapshot restores the trap frame.
pub proof fn lemma_x86_round_trip(tf: X86TrapFrame)
    requires
        usize::MAX == u64::MAX,
    ensures
        x86_written_back(x86_snapshot(tf)) == tf,
{
}

/// The RISC-V general registers of a trap frame (all but `zero`).
#[derive(Clone, Copy, PartialEq, Eq, Debug, Structural)]
pub struct RiscvGeneralRegisters {
    pub ra: usize,
    pub sp: usize,
    pub gp: usize,
    pub tp: usize,
    pub t0: usize,
    pub t1: usize,
    pub t2: usize,
    pub s0: usize,
    pub s1: usize,
    pub a0: usize,
    pub a1: usize,
    pub a2: usize,
    pub a3: usize,
    pub a4: usize,
    pub a5: usize,
    pub a6: usize,
    pub a7: usize,
    pub s2: usize,
    pub s3: usize,
    pub s4: usize,
    pub s5: usize,
    pub s6: usize,
    pub s7: usize,
    pub s8: usize,
    pub s9: usize,
    pub s10: usize,
    pub s11: usize,
    pub t3: usize,
    pub t4: usize,
    pub t5: usize,
    pub t6: usize,
}

/// The RISC-V trap frame fields that probes read and write.
#[derive(Clone, Copy, PartialEq, Eq, Debug, Structural)]
pub struct RiscvTrapFrame {
    pub regs: RiscvGeneralRegisters,
    pub sepc: usize,
    pub sstatus: usize,
}

/// The RISC-V register snapshot handed to probe handlers (`pt_regs`).
#[derive(Clone, Copy, PartialEq, Eq, Debug, Structural)]
pub struct RiscvPtRegs {
    pub epc: usize,
    pub ra: usize,
    pub sp: usize,
    pub gp: usize,
    pub tp: usize,
    pub t0: usize,
    pub t1: usize,
    pub t2: usize,
    pub s0: usize,
    pub s1: usize,
    pub a0: usize,
    pub a1: usize,
    pub a2: usize,
    pub a3: usize,
    pub a4: usize,
    pub a5: usize,
    pub a6: usize,
    pub a7: usize,
    pub s2: usize,
    pub s3: usize,
    pub s4: usize,
    pub s5: usize,
    pub s6: usize,
    pub s7: usize,
    pub s8: usize,
    pub s9: usize,
    pub s10: usize,
    pub s11: usize,
    pub t3: usize,
    pub t4: usize,
    pub t5: usize,
    pub t6: usize,
    pub status: usize,
    pub badaddr: usize,
    pub cause: usize,
    pub orig_a0: usize,
}

/// The RISC-V snapshot of a trap frame: `badaddr` and `cause` are 0 and
/// `orig_a0` repeats `a0`.
pub open spec fn riscv_snapshot(tf: RiscvTrapFrame) -> RiscvPtRegs {
    RiscvPtRegs {
        epc: tf.sepc,
        ra: tf.regs.ra,
        sp: tf.regs.sp,
        gp: tf.regs.gp,
        tp: tf.regs.tp,
        t0: tf.regs.t0,
        t1: tf.regs.t1,
        t2: tf.regs.t2,
        s0: tf.regs.s0,
        s1: tf.regs.s1,
        a0: tf.regs.a0,
        a1: tf.regs.a1,
        a2: tf.regs.a2,
        a3: tf.regs.a3,
        a4: tf.regs.a4,
        a5: tf.regs.a5,
        a6: tf.regs.a6,
        a7: tf.regs.a7,
        s2: tf.regs.s2,
        s3: tf.regs.s3,
        s4: tf.regs.s4,
        s5: tf.regs.s5,
        s6: tf.regs.s6,
        s7: tf.regs.s7,
        s8: tf.regs.s8,
        s9: tf.regs.s9,
        s10: tf.regs.s10,
        s11: tf.regs.s11,
        t3: tf.regs.t3,
        t4: tf.regs.t4,
        t5: tf.regs.t5,
        t6: tf.regs.t6,
        status: tf.sstatus,
        badaddr: 0,
        cause: 0,
        orig_a0: tf.regs.a0,
    }
}

/// The RISC-V trap frame after writing back a snapshot; `sstatus` is kept.
pub open spec fn riscv_written_back(pt: RiscvPtRegs, tf: RiscvTrapFrame) -> RiscvTrapFrame {
    RiscvTrapFrame {
        regs: RiscvGeneralRegisters {
            ra: pt.ra,
            sp: pt.sp,
            gp: pt.gp,
            tp: pt.tp,
            t0: pt.t0,
            t1: pt.t1,
            t2: pt.t2,
            s0: pt.s0,
            s1: pt.s1,
            a0: pt.a0,
            a1: pt.a1,
            a2: pt.a2,
            a3: pt.a3,
            a4: pt.a4,
            a5: pt.a5,
            a6: pt.a6,
            a7: pt.a7,
            s2: pt.s2,
            s3: pt.s3,
            s4: pt.s4,
            s5: pt.s5,
            s6: pt.s6,
            s7: pt.s7,
            s8: pt.s8,
            s9: pt.s9,
            s10: pt.s10,
            s11: pt.s11,
            t3: pt.t3,
            t4: pt.t4,
            t5: pt.t5,
            t6: pt.t6,
        },
        sepc: pt.epc,
        sstatus: tf.sstatus,
    }
}

/// Takes the RISC-V snapshot of a trap frame.
pub fn riscv_trapframe_to_ptregs(tf: &RiscvTrapFrame) -> (r: RiscvPtRegs)
    ensures
        r == riscv_snapshot(*tf),
{
    RiscvPtRegs {
        epc: tf.sepc,
        ra: tf.regs.ra,
        sp: tf.regs.sp,
        gp: tf.regs.gp,
        tp: tf.regs.tp,
        t0: tf.regs.t0,
        t1: tf.regs.t1,
        t2: tf.regs.t2,
        s0: tf.regs.s0,
        s1: tf.regs.s1,
        a0: tf.regs.a0,
        a1: tf.regs.a1,
        a2: tf.regs.a2,
        a3: tf.regs.a3,
        a4: tf.regs.a4,
        a5: tf.regs.a5,
        a6: tf.regs.a6,
        a7: tf.regs.a7,
        s2: tf.regs.s2,
        s3: tf.regs.s3,
        s4: tf.regs.s4,
        s5: tf.regs.s5,
        s6: tf.regs.s6,
        s7: tf.regs.s7,
        s8: tf.regs.s8,
        s9: tf.regs.s9,
        s10: tf.regs.s10,
        s11: tf.regs.s11,
        t3: tf.regs.t3,
        t4: tf.regs.t4,
        t5: tf.regs.t5,
        t6: tf.regs.t6,
        status: tf.sstatus,
        badaddr: 0,
        cause: 0,
        orig_a0: tf.regs.a0,
    }
}

/// Writes a RISC-V snapshot back into the trap frame.
pub fn riscv_ptregs_write_back(pt: &RiscvPtRegs, tf: &mut RiscvTrapFrame)
    ensures
        *final(tf) == riscv_written_back(*pt, *old(tf)),
{
    tf.sepc = pt.epc;
    tf.regs.ra = pt.ra;
    tf.regs.sp = pt.sp;
    tf.regs.gp = pt.gp;
    tf.regs.tp = pt.tp;
    tf.regs.t0 = pt.t0;
    tf.regs.t1 = pt.t1;
    tf.regs.t2 = pt.t2;
    tf.regs.s0 = pt.s0;
    tf.regs.s1 = pt.s1;
    tf.regs.a0 = pt.a0;
    tf.regs.a1 = pt.a1;
    tf.regs.a2 = pt.a2;
    tf.regs.a3 = pt.a3;
    tf.regs.a4 = pt.a4;
    tf.regs.a5 = pt.a5;
    tf.regs.a6 = pt.a6;
    tf.regs.a7 = pt.a7;
    tf.regs.s2 = pt.s2;
    tf.regs.s3 = pt.s3;
    tf.regs.s4 = pt.s4;
    tf.regs.s5 = pt.s5;
    tf.regs.s6 = pt.s6;
    tf.regs.s7 = pt.s7;
    tf.regs.s8 = pt.s8;
    tf.regs.s9 = pt.s9;
    tf.regs.s10 = pt.s10;
    tf.regs.s11 = pt.s11;
    tf.regs.t3 = pt.t3;
    tf.regs.t4 = pt.t4;
    tf.regs.t5 = pt.t5;
    tf.regs.t6 = pt.t6;
}

/// Writing back an unchanged RISC-V snapshot restores the trap frame.
pub proof fn lemma_riscv_round_trip(tf: RiscvTrapFrame)
    ensures
        riscv_written_back(riscv_snapshot(tf), tf) == tf,
{
}

/// The AArch64 trap frame fields that probes read and write.
#[derive(Clone, Copy)]
pub struct Aarch64TrapFrame {
    pub x: [u64; 31],
    pub elr: u64,
    pub spsr: u64,
}

/// The AArch64 register snapshot handed to probe handlers (`pt_regs`).
#[derive(Clone, Copy)]
pub struct Aarch64PtRegs {
    pub regs: [u64; 31],
    pub sp: u64,
    pub pc: u64,
    pub pstate: u64,
    pub orig_x0: u64,
    pub syscallno: i32,
    pub unused2: u32,
}

/// The AArch64 snapshot of a trap frame: `sp` is 0, `orig_x0` repeats
/// `x0` and `syscallno` is -1.
pub open spec fn aarch64_snapshot(tf: Aarch64TrapFrame) -> Aarch64PtRegs {
    Aarch64PtRegs {
        regs: tf.x,
        sp: 0,
        pc: tf.elr,
        pstate: tf.spsr,
        orig_x0: tf.x@[0],
        syscallno: -1i32,
        unused2: 0u32,
    }
}

/// The trap frame after an AArch64 snapshot is written back into it: every
/// field of the frame comes from the snapshot.
pub open spec fn aarch64_written_back(pt: Aarch64PtRegs) -> Aarch64TrapFrame {
    Aarch64TrapFrame { x: pt.regs, elr: pt.pc, spsr: pt.pstate }
}

/// Takes the AArch64 snapshot of a trap frame.
pub fn aarch64_trapframe_to_ptregs(tf: &Aarch64TrapFrame) -> (r: Aarch64PtRegs)
    ensures
        r == aarch64_snapshot(*tf),
{
    Aarch64PtRegs {
        regs: tf.x,
        sp: 0,
        pc: tf.elr,
        pstate: tf.spsr,
        orig_x0: tf.x[0],
        syscallno: -1,
        unused2: 0,
    }
}

/// Writes an AArch64 snapshot back into the trap frame: the general
/// registers, the program counter and the saved status.
pub fn aarch64_ptregs_write_back(pt: &Aarch64PtRegs, tf: &mut Aarch64TrapFrame)
    ensures
        *final(tf) == aarch64_written_back(*pt),
{
    tf.x = pt.regs;
    tf.elr = pt.pc;
    tf.spsr = pt.pstate;
}

/// Writing back an unchanged AArch64 snapshot restores the trap frame.
pub proof fn lemma_aarch64_round_trip(tf: Aarch64TrapFrame)
    ensures
        aarch64_written_back(aarch64_snapshot(tf)) == tf,
{
}

/// The end of a breakpoint (or debug) trap on x86_64, once the probe
/// handlers ran on the snapshot `pt`: when a probe claimed the trap, the
/// snapshot is written back into the frame and the trap is handled;
/// otherwise the frame is left alone and the trap goes on to the kernel's
/// own handling.
pub fn x86_finish_probe_trap(pt: &X86PtRegs, tf: &mut X86TrapFrame, claimed: bool) -> (handled: bool)
    ensures
        handled == claimed,
        claimed ==> *final(tf) == x86_written_back(*pt),
        !claimed ==> *final(tf) == *old(tf),
{
    if claimed {
        x86_ptregs_write_back(pt, tf);
        true
    } else {
        false
    }
}

/// The end of a breakpoint trap on RISC-V, as for x86_64.
pub fn riscv_finish_probe_trap(pt: &RiscvPtRegs, tf: &mut RiscvTrapFrame, claimed: bool) -> (handled: bool)
    ensures
        handled == claimed,
        claimed ==> *final(tf) == riscv_written_back(*pt, *old(tf)),
        !claimed ==> *final(tf) == *old(tf),
{
    if claimed {
        riscv_ptregs_write_back(pt, tf);
        true
    } else {
        false
    }
}

/// The end of a breakpoint trap on AArch64, as for x86_64.
pub fn aarch64_finish_probe_trap(pt: &Aarch64PtRegs, tf: &mut Aarch64TrapFrame, claimed: bool) -> (handled: bool)
    ensures
        handled == claimed,
        claimed ==> *final(tf) == aarch64_written_back(*pt),
        !claimed ==> *final(tf) == *old(tf),
{
    if claimed {
        aarch64_ptregs_write_back(pt, tf);
        true
    } else {
        false
    }
}

/// Each register of the x86_64 snapshot is the register of the same name
/// in the trap frame (`rdi` from `rdi`, `rsi` from `rsi`, and so on), so a
/// handler reads its arguments where the interrupted code left them;
/// `orig_rax` is 0.
pub proof fn lemma_x86_snapshot_same_named(tf: X86TrapFrame)
    ensures
        ({
            let p = x86_snapshot(tf);
            &&& p.r15 == tf.r15 as usize
            &&& p.r14 == tf.r14 as usize
            &&& p.r13 == tf.r13 as usize
            &&& p.r12 == tf.r12 as usize
            &&& p.rbp == tf.rbp as usize
            &&& p.rbx == tf.rbx as usize
            &&& p.r11 == tf.r11 as usize
            &&& p.r10 == tf.r10 as usize
            &&& p.r9 == tf.r9 as usize
            &&& p.r8 == tf.r8 as usize
            &&& p.rax == tf.rax as usize
            &&& p.rcx == tf.rcx as usize
            &&& p.rdx == tf.rdx as usize
            &&& p.rsi == tf.rsi as usize
            &&& p.rdi == tf.rdi as usize
            &&& p.rip == tf.rip as usize
            &&& p.cs == tf.cs as usize
            &&& p.rflags == tf.rflags as usize
            &&& p.rsp == tf.rsp as usize
            &&& p.ss == tf.ss as usize
            &&& p.orig_rax == 0
        }),
{
}

/// Writing back an x86_64 snapshot sets each register of the frame from the
/// register of the same name, so a handler's change to one register lands
/// in that register only.
pub proof fn lemma_x86_write_back_same_named(pt: X86PtRegs)
    ensures
        ({
            let f = x86_written_back(pt);
            &&& f.r15 == pt.r15 as u64
            &&& f.r14 == pt.r14 as u64
            &&& f.r13 == pt.r13 as u64
            &&& f.r12 == pt.r12 as u64
            &&& f.rbp == pt.rbp as u64
            &&& f.rbx == pt.rbx as u64
            &&& f.r11 == pt.r11 as u64
            &&& f.r10 == pt.r10 as u64
            &&& f.r9 == pt.r9 as u64
            &&& f.r8 == pt.r8 as u64
            &&& f.rax == pt.rax as u64
            &&& f.rcx == pt.rcx as u64
            &&& f.rdx == pt.rdx as u64
            &&& f.rsi == pt.rsi as u64
            &&& f.rdi == pt.rdi as u64
            &&& f.rip == pt.rip as u64
            &&& f.cs == pt.cs as u64
            &&& f.rflags == pt.rflags as u64
            &&& f.rsp == pt.rsp as u64
            &&& f.ss == pt.ss as u64
        }),
{
}

/// Each register of the RISC-V snapshot is the register of the same name in
/// the trap frame (`a0` from `a0`, `a1` from `a1`, ...); `epc` is `sepc`,
/// `status` is `sstatus`, `orig_a0` repeats `a0`, `badaddr` and `cause`
/// are 0.
pub proof fn lemma_riscv_snapshot_same_named(tf: RiscvTrapFrame)
    ensures
        ({
            let p = riscv_snapshot(tf);
            &&& p.epc == tf.sepc
            &&& p.ra == tf.regs.ra
            &&& p.sp == tf.regs.sp
            &&& p.gp == tf.regs.gp
            &&& p.tp == tf.regs.tp
            &&& p.t0 == tf.regs.t0
            &&& p.t1 == tf.regs.t1
            &&& p.t2 == tf.regs.t2
            &&& p.s0 == tf.regs.s0
            &&& p.s1 == tf.regs.s1
            &&& p.a0 == tf.regs.a0
            &&& p.a1 == tf.regs.a1
            &&& p.a2 == tf.regs.a2
            &&& p.a3 == tf.regs.a3
            &&& p.a4 == tf.regs.a4
            &&& p.a5 == tf.regs.a5
            &&& p.a6 == tf.regs.a6
            &&& p.a7 == tf.regs.a7
            &&& p.s2 == tf.regs.s2
            &&& p.s3 == tf.regs.s3
            &&& p.s4 == tf.regs.s4
            &&& p.s5 == tf.regs.s5
            &&& p.s6 == tf.regs.s6
            &&& p.s7 == tf.regs.s7
            &&& p.s8 == tf.regs.s8
            &&& p.s9 == tf.regs.s9
            &&& p.s10 == tf.regs.s10
            &&& p.s11 == tf.regs.s11
            &&& p.t3 == tf.regs.t3
            &&& p.t4 == tf.regs.t4
            &&& p.t5 == tf.regs.t5
            &&& p.t6 == tf.regs.t6
            &&& p.status == tf.sstatus
            &&& p.badaddr == 0
            &&& p.cause == 0
            &&& p.orig_a0 == tf.regs.a0
        }),
{
}

/// Writing back a RISC-V snapshot sets each register of the frame from the
/// register of the same name and `sepc` from `epc`; `sstatus` is kept.
pub proof fn lemma_riscv_write_back_same_named(pt: RiscvPtRegs, tf: RiscvTrapFrame)
    ensures
        ({
            let f = riscv_written_back(pt, tf);
            &&& f.sepc == pt.epc
            &&& f.regs.ra == pt.ra
            &&& f.regs.sp == pt.sp
            &&& f.regs.gp == pt.gp
            &&& f.regs.tp == pt.tp
            &&& f.regs.t0 == pt.t0
            &&& f.regs.t1 == pt.t1
            &&& f.regs.t2 == pt.t2
            &&& f.regs.s0 == pt.s0
            &&& f.regs.s1 == pt.s1
            &&& f.regs.a0 == pt.a0
            &&& f.regs.a1 == pt.a1
            &&& f.regs.a2 == pt.a2
            &&& f.regs.a3 == pt.a3
            &&& f.regs.a4 == pt.a4
            &&& f.regs.a5 == pt.a5
            &&& f.regs.a6 == pt.a6
            &&& f.regs.a7 == pt.a7
            &&& f.regs.s2 == pt.s2
            &&& f.regs.s3 == pt.s3
            &&& f.regs.s4 == pt.s4
            &&& f.regs.s5 == pt.s5
            &&& f.regs.s6 == pt.s6
            &&& f.regs.s7 == pt.s7
            &&& f.regs.s8 == pt.s8
            &&& f.regs.s9 == pt.s9
            &&& f.regs.s10 == pt.s10
            &&& f.regs.s11 == pt.s11
            &&& f.regs.t3 == pt.t3
            &&& f.regs.t4 == pt.t4
            &&& f.regs.t5 == pt.t5
            &&& f.regs.t6 == pt.t6
            &&& f.sstatus == tf.sstatus
        }),
{
}

/// The AArch64 snapshot holds the general registers in order (`regs[i]` is
/// `x[i]`), `pc` is `elr`, `pstate` is `spsr` and `orig_x0` repeats `x0`;
/// writing back sets `x[i]` from `regs[i]`, `elr` from `pc` and `spsr` from
/// `pstate`.
pub proof fn lemma_aarch64_same_named(tf: Aarch64TrapFrame, pt: Aarch64PtRegs)
    ensures
        forall|i: int| 0 <= i < 31 ==> aarch64_snapshot(tf).regs@[i] == tf.x@[i],
        aarch64_snapshot(tf).pc == tf.elr,
        aarch64_snapshot(tf).pstate == tf.spsr,
        aarch64_snapshot(tf).orig_x0 == tf.x@[0],
        aarch64_snapshot(tf).sp == 0,
        aarch64_snapshot(tf).syscallno == -1,
        forall|i: int| 0 <= i < 31 ==> aarch64_written_back(pt).x@[i] == pt.regs@[i],
        aarch64_written_back(pt).elr == pt.pc,
        aarch64_written_back(pt).spsr == pt.pstate,
{
}

} // verus!
