//! The sample loadable kernel modules: the lines they print when they are
//! loaded and unloaded.

use vstd::prelude::*;

use crate::text::{push_signed_decimal, push_str, signed_decimal};

verus! {

/// The values of `v` in decimal, separated by `", "`.
pub open spec fn joined_values(v: Seq<i32>) -> Seq<char>
    decreases v.len(),
{
    if v.len() == 0 {
        Seq::empty()
    } else if v.len() == 1 {
        signed_decimal(v[0] as int)
    } else {
        joined_values(v.drop_last()) + ", "@ + signed_decimal(v.last() as int)
    }
}

/// What the module prints when it is loaded.
pub open spec fn init_text() -> Seq<char> {
    "Hello, Kernel Module!\n"@ + "Vector contents: ["@ + joined_values(seq![1i32, 2, 3, 4, 5])
        + "]\n"@
}

/// Appends the values of `v` to `out`, separated by `", "`.
pub fn push_joined_values(out: &mut String, v: &[i32])
    ensures
        final(out)@ == old(out)@ + joined_values(v@),
{
    let mut i: usize = 0;
    while i < v.len()
        invariant
            i <= v@.len(),
            out@ == old(out)@ + joined_values(v@.take(i as int)),
        decreases v@.len() - i,
    {
        let ghost before = out@;
        if i > 0 {
            push_str(out, ", ");
        }
        push_signed_decimal(out, v[i]);
        proof {
            let t = v@.take(i + 1);
            assert(t.drop_last() =~= v@.take(i as int));
            assert(t.last() == v@[i as int]);
            if i == 0 {
                assert(joined_values(v@.take(0)) =~= Seq::<char>::empty());
                assert(out@ =~= old(out)@ + joined_values(t));
            } else {
                assert(out@ =~= old(out)@ + joined_values(t));
            }
        }
        i = i + 1;
    }
    proof {
        assert(v@.take(i as int) =~= v@);
    }
}

/// Entry point of the module: prints a greeting and a short list of
/// values, and reports success (0).
pub fn hello_init(out: &mut String) -> (r: i32)
    ensures
        r == 0,
        final(out)@ == old(out)@ + init_text(),
{
    push_str(out, "Hello, Kernel Module!\n");
    push_str(out, "Vector contents: [");
    let values: [i32; 5] = [1, 2, 3, 4, 5];
    assert(values@ =~= seq![1i32, 2, 3, 4, 5]);
    push_joined_values(out, &values);
    push_str(out, "]\n");
    proof {
        assert(final(out)@ =~= old(out)@ + init_text());
    }
    0
}

/// Exit point of the module: prints a farewell.
pub fn hello_exit(out: &mut String)
    ensures
        final(out)@ == old(out)@ + "Goodbye, Kernel Module!\n"@,
{
    push_str(out, "Goodbye, Kernel Module!\n");
}

/// Entry point of the eBPF module: prints a greeting and reports success
/// (0).
pub fn kebpf_init(out: &mut String) -> (r: i32)
    ensures
        r == 0,
        final(out)@ == old(out)@ + "Hello, eBPF Kernel Module!\n"@,
{
    push_str(out, "Hello, eBPF Kernel Module!\n");
    0
}

/// Exit point of the eBPF module: prints a farewell.
pub fn kebpf_exit(out: &mut String)
    ensures
        final(out)@ == old(out)@ + "Goodbye, eBPF Kernel Module!\n"@,
{
    push_str(out, "Goodbye, eBPF Kernel Module!\n");
}

} // verus!
