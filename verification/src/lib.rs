//! Verified core logic of the TGOS kernel toolkit: kernel symbol tables,
//! console escape handling, trace pipes, eBPF bookkeeping, syscall and IRQ
//! registries, exception vector tables and the helpers used by the test
//! suites and the build driver.

pub mod bpf;
pub mod guest;
pub mod irq;
pub mod kallsyms;
pub mod kallsyms_data;
pub mod kmod;
pub mod kprobe;
pub mod platform;
pub mod probe_cases;
pub mod poll;
pub mod registry;
pub mod stress;
pub mod text;
pub mod trap;
pub mod trace;
pub mod tracefs;
pub mod tty;
pub mod user_ebpf;
