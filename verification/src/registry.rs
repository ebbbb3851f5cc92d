//! The dynamic syscall-handler registry: a module takes over a syscall by
//! registering a handler for its number; the kernel falls back to its
//! built-in implementation for any number without one.

use std::collections::BTreeMap;

use vstd::prelude::*;

verus! {

broadcast use vstd::laws_cmp::group_laws_cmp;

/// The registered syscall handlers, keyed by syscall number.
pub struct SyscallRegistry<H> {
    handlers: BTreeMap<usize, H>,
}

impl<H> SyscallRegistry<H> {
    /// The handler registered for each syscall number.
    pub closed spec fn view(&self) -> Map<usize, H> {
        self.handlers@
    }

    /// A registry with no handler.
    pub fn new() -> (r: Self)
        ensures
            r@ == Map::<usize, H>::empty(),
    {
        SyscallRegistry { handlers: BTreeMap::new() }
    }
}

/// Registers `handler` for `sysno`, replacing any earlier one, and returns
/// the handler it displaced.
pub fn register_syscall_handler<H>(registry: &mut SyscallRegistry<H>, sysno: usize, handler: H) -> (prev: Option<H>)
    ensures
        final(registry)@ == old(registry)@.insert(sysno, handler),
        match prev {
            Some(p) => old(registry)@.contains_key(sysno) && p == old(registry)@[sysno],
            None => !old(registry)@.contains_key(sysno),
        },
{
    registry.handlers.insert(sysno, handler)
}

/// Removes the handler for `sysno` and returns it, if one was registered.
pub fn unregister_syscall_handler<H>(registry: &mut SyscallRegistry<H>, sysno: usize) -> (prev: Option<H>)
    ensures
        final(registry)@ == old(registry)@.remove(sysno),
        match prev {
            Some(p) => old(registry)@.contains_key(sysno) && p == old(registry)@[sysno],
            None => !old(registry)@.contains_key(sysno),
        },
{
    registry.handlers.remove(&sysno)
}

/// A copy of the handler registered for `sysno`, if any.
pub fn lookup_syscall_handler<H: Copy>(registry: &SyscallRegistry<H>, sysno: usize) -> (r: Option<H>)
    ensures
        match r {
            Some(h) => registry@.contains_key(sysno) && h == registry@[sysno],
            None => !registry@.contains_key(sysno),
        },
{
    match registry.handlers.get(&sysno) {
        Some(h) => Some(*h),
        None => None,
    }
}

/// After registering a handler, looking the number up finds that handler.
pub proof fn lemma_lookup_after_register<H>(m: Map<usize, H>, sysno: usize, handler: H)
    ensures
        m.insert(sysno, handler).contains_key(sysno),
        m.insert(sysno, handler)[sysno] == handler,
{
}

/// After unregistering, the number has no handler and the kernel's own
/// implementation serves it again; other numbers keep theirs.
pub proof fn lemma_lookup_after_unregister<H>(m: Map<usize, H>, sysno: usize, other: usize)
    requires
        other != sysno,
    ensures
        !m.remove(sysno).contains_key(sysno),
        m.remove(sysno).contains_key(other) == m.contains_key(other),
        m.contains_key(other) ==> m.remove(sysno)[other] == m[other],
{
}

/// Registering and then unregistering a number hands back the registered
/// handler and restores the number's earlier absence.
pub proof fn lemma_register_then_unregister<H>(m: Map<usize, H>, sysno: usize, handler: H)
    requires
        !m.contains_key(sysno),
    ensures
        m.insert(sysno, handler)[sysno] == handler,
        m.insert(sysno, handler).remove(sysno) == m,
{
    assert(m.insert(sysno, handler).remove(sysno) =~= m);
}

} // verus!
