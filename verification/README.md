# tgoskits

Verified core logic of a kernel toolkit: kernel symbol tables, the console
escape filter, the tracing files, eBPF and syscall bookkeeping, exception
vector tables, kernel-probe register snapshots, and the helpers of the guest
test cases and of the `user-ebpf` build driver. Every function in `src/` is
proved by Verus against its `requires` / `ensures` contract, except the
trusted wrappers marked `#[verifier::external_body]`: the ones in `poll` that
read the Linux `poll` bits from `linux-raw-sys`, and `text::push_char`, which
calls `String::push`. Their contracts are believed, not proved.

## Layout

- `src/` — the verified library, one module per subsystem:
  - `text` — character-level helpers (search, split, trim, hex and decimal
    rendering) that the other modules build on;
  - `kallsyms`, `kallsyms_data` — the kernel symbol table: parsing, sorting,
    lookups, `/proc/kallsyms` rendering, and the build-time symbol filter;
  - `tty` — the console output filter and its reply queue;
  - `trace`, `tracefs` — `trace_pipe`, `trace`, `saved_cmdlines` and the
    layout of the tracing directory;
  - `bpf`, `registry`, `irq`, `poll` — `bpf(2)` bookkeeping, the syscall
    handler registry, the IRQ table and poll events / wait queues;
  - `trap`, `kprobe`, `platform` — exception vectors, probe register
    snapshots, the probe lock and the page-table interfaces;
  - `guest`, `probe_cases`, `stress` — the guest test cases and the
    concurrency stress test: records, checks, diffs and schedules;
  - `kmod` — the sample loadable module's output;
  - `user_ebpf` — the decisions of the `user-ebpf` build driver.
- `tests/` — tests of the library on concrete values.
- `app/` — the command-line front end and the I/O edges (console output,
  threads, the stress runner, IRQ enabling, `cargo` invocations,
  syscall-number conversion).

Laws that relate several functions are public proof functions named
`lemma_*` next to the functions they speak of.
