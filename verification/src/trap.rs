//! The LoongArch exception vector table: 128 vectors of `VECSIZE` bytes,
//! into which each CPU's trap setup copies the handler code.

use vstd::prelude::*;

verus! {

/// The size of one exception vector, in bytes.
pub const VECSIZE: usize = 0x200;

/// The number of vectors in the table.
pub const VECTOR_COUNT: usize = 128;

/// The size of the whole table: 64 KiB.
pub const TABLE_SIZE: usize = 0x10000;

/// The first vector of the hardware interrupts.
pub const FIRST_INT_VECTOR: usize = 64;

/// The last vector of the hardware interrupts.
pub const LAST_INT_VECTOR: usize = 78;

/// The vector whose slot holds the TLB refill entry.
pub const TLBR_VECTOR: usize = 80;

/// Byte `j` of vector `i` in a table image.
pub open spec fn vector_byte(t: Seq<u8>, i: int, j: int) -> u8 {
    t[i * 0x200 + j]
}

/// What one CPU's trap setup leaves in vector `i`: on the boot CPU, the
/// reserved handler in vectors 0..64 and the interrupt handler in 64..=78;
/// otherwise what was there.
pub open spec fn vector_after_init(
    before: Seq<u8>,
    is_primary: bool,
    reserved: Seq<u8>,
    interrupt: Seq<u8>,
    i: int,
    j: int,
) -> u8 {
    if is_primary && i < 64 {
        reserved[j]
    } else if is_primary && 64 <= i <= 78 {
        interrupt[j]
    } else {
        vector_byte(before, i, j)
    }
}

/// Running the trap setup again on a table it already set up changes
/// nothing: the vector contents depend only on the handlers.
pub proof fn lemma_trap_init_idempotent(
    t0: Seq<u8>,
    t1: Seq<u8>,
    is_primary: bool,
    reserved: Seq<u8>,
    interrupt: Seq<u8>,
    i: int,
    j: int,
)
    requires
        0 <= i < 128,
        0 <= j < 0x200,
        forall|a: int, b: int|
            0 <= a < 128 && 0 <= b < 0x200 ==> #[trigger] vector_byte(t1, a, b)
                == vector_after_init(t0, is_primary, reserved, interrupt, a, b),
    ensures
        vector_after_init(t1, is_primary, reserved, interrupt, i, j) == vector_after_init(
            t0,
            is_primary,
            reserved,
            interrupt,
            i,
            j,
        ),
{
    assert(vector_byte(t1, i, j) == vector_after_init(t0, is_primary, reserved, interrupt, i, j));
}

/// The exception vector table, aligned to 64 KiB in the kernel image.
pub struct ExceptionHandlers {
    code: Vec<u8>,
}

impl ExceptionHandlers {
    /// The bytes of the table.
    pub closed spec fn view(&self) -> Seq<u8> {
        self.code@
    }

    /// A table of zeros.
    pub fn new() -> (t: Self)
        ensures
            t@.len() == TABLE_SIZE,
            forall|k: int| 0 <= k < TABLE_SIZE ==> t@[k] == 0,
    {
        ExceptionHandlers { code: vec![0u8; TABLE_SIZE] }
    }

    /// The bytes of the table, as the CPU fetches them.
    pub fn as_bytes(&self) -> (b: &[u8])
        ensures
            b@ == self@,
    {
        self.code.as_slice()
    }

    /// Copies the first `VECSIZE` bytes of `handler` into vector `idx`.
    pub fn set_handler(&mut self, idx: usize, handler: &[u8])
        requires
            idx < VECTOR_COUNT,
            handler@.len() >= VECSIZE,
            old(self)@.len() == TABLE_SIZE,
        ensures
            final(self)@.len() == TABLE_SIZE,
            forall|i: int, j: int|
                0 <= i < 128 && 0 <= j < 0x200 ==> #[trigger] vector_byte(final(self)@, i, j) == if i
                    == idx {
                    handler@[j]
                } else {
                    vector_byte(old(self)@, i, j)
                },
    {
        let base = idx * VECSIZE;
        let mut j: usize = 0;
        while j < VECSIZE
            invariant
                base == idx * 0x200,
                idx < 128,
                j <= 0x200,
                handler@.len() >= 0x200,
                self@.len() == 0x10000,
                forall|i: int, k: int|
                    0 <= i < 128 && 0 <= k < 0x200 ==> #[trigger] vector_byte(self@, i, k) == if i
                        == idx && k < j {
                        handler@[k]
                    } else {
                        vector_byte(old(self)@, i, k)
                    },
            decreases 0x200 - j,
        {
            let ghost before = self@;
            self.code[base + j] = handler[j];
            proof {
                assert forall|i: int, k: int| 0 <= i < 128 && 0 <= k < 0x200 implies #[trigger] vector_byte(
                    self@,
                    i,
                    k,
                ) == if i == idx && k < j + 1 {
                    handler@[k]
                } else {
                    vector_byte(old(self)@, i, k)
                } by {
                    assert(vector_byte(before, i, k) == if i == idx && k < j {
                        handler@[k]
                    } else {
                        vector_byte(old(self)@, i, k)
                    });
                    if i * 0x200 + k == base + j {
                        assert(i == idx && k == j) by (nonlinear_arith)
                            requires
                                i * 0x200 + k == idx * 0x200 + j,
                                0 <= k < 0x200,
                                0 <= j < 0x200,
                                0 <= i,
                                0 <= idx,
                        ;
                    } else {
                        assert(self@[i * 0x200 + k] == before[i * 0x200 + k]);
                        if i == idx {
                            assert(k != j);
                        }
                    }
                }
            }
            j = j + 1;
        }
    }
}

/// The address of the TLB refill entry for a table at `eentry`.
pub fn tlbrentry_addr(eentry: usize) -> (a: usize)
    requires
        eentry + TLBR_VECTOR * VECSIZE <= usize::MAX,
    ensures
        a == eentry + 80 * 0x200,
{
    eentry + TLBR_VECTOR * VECSIZE
}

/// The vector spacing code for `ecfg.VS`: log2 of the vector size in
/// instructions (`VECSIZE / 4` = 128 instructions).
pub fn vint_size() -> (n: u32)
    ensures
        n == 7,
{
    proof {
        reveal(vstd::std_specs::bits::u64_leading_zeros);
        assert(vstd::std_specs::bits::u64_leading_zeros(0) == 64);
        assert(vstd::std_specs::bits::u64_leading_zeros(1) == 63);
        assert(vstd::std_specs::bits::u64_leading_zeros(2) == 62);
        assert(vstd::std_specs::bits::u64_leading_zeros(4) == 61);
        assert(vstd::std_specs::bits::u64_leading_zeros(8) == 60);
        assert(vstd::std_specs::bits::u64_leading_zeros(16) == 59);
        assert(vstd::std_specs::bits::u64_leading_zeros(32) == 58);
        assert(vstd::std_specs::bits::u64_leading_zeros(64) == 57);
        assert(vstd::std_specs::bits::u64_leading_zeros(128) == 56);
    }
    let per_vector: u64 = (VECSIZE / 4) as u64;
    64 - per_vector.leading_zeros() - 1
}

/// Per-CPU trap setup of the vector table: the boot CPU installs the
/// reserved handler in vectors 0..64 and the interrupt handler in vectors
/// 64..=78; the other CPUs only program their own vector registers, which
/// the caller does, together with flushing the instruction cache over the
/// first 1 KiB of the table.
pub fn per_cpu_trap_init(
    table: &mut ExceptionHandlers,
    is_primary: bool,
    reserved: &[u8],
    interrupt: &[u8],
)
    requires
        old(table)@.len() == TABLE_SIZE,
        reserved@.len() >= VECSIZE,
        interrupt@.len() >= VECSIZE,
    ensures
        final(table)@.len() == TABLE_SIZE,
        forall|i: int, j: int|
            0 <= i < 128 && 0 <= j < 0x200 ==> #[trigger] vector_byte(final(table)@, i, j)
                == vector_after_init(old(table)@, is_primary, reserved@, interrupt@, i, j),
{
    if is_primary {
        let mut i: usize = 0;
        while i < FIRST_INT_VECTOR
            invariant
                i <= 64,
                reserved@.len() >= 0x200,
                table@.len() == 0x10000,
                forall|a: int, j: int|
                    0 <= a < 128 && 0 <= j < 0x200 ==> #[trigger] vector_byte(table@, a, j) == if a
                        < i {
                        reserved@[j]
                    } else {
                        vector_byte(old(table)@, a, j)
                    },
            decreases 64 - i,
        {
            table.set_handler(i, reserved);
            i = i + 1;
        }
        let mut i: usize = FIRST_INT_VECTOR;
        while i <= LAST_INT_VECTOR
            invariant
                64 <= i <= 79,
                interrupt@.len() >= 0x200,
                table@.len() == 0x10000,
                forall|a: int, j: int|
                    0 <= a < 128 && 0 <= j < 0x200 ==> #[trigger] vector_byte(table@, a, j) == if a
                        < 64 {
                        reserved@[j]
                    } else if a < i {
                        interrupt@[j]
                    } else {
                        vector_byte(old(table)@, a, j)
                    },
            decreases 79 - i,
        {
            table.set_handler(i, interrupt);
            i = i + 1;
        }
    }
}

} // verus!
