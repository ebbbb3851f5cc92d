//! The kernel's interrupt handler table: one handler per IRQ number, looked
//! up when the interrupt arrives.

use std::collections::BTreeMap;

use vstd::prelude::*;

verus! {

broadcast use vstd::laws_cmp::group_laws_cmp;

/// The registered interrupt handlers, keyed by IRQ number.
pub struct IrqTable<H> {
    handlers: BTreeMap<usize, H>,
}

impl<H> IrqTable<H> {
    /// The handler registered for each IRQ number.
    pub closed spec fn view(&self) -> Map<usize, H> {
        self.handlers@
    }

    /// A table with no handler.
    pub fn new() -> (t: Self)
        ensures
            t@ == Map::<usize, H>::empty(),
    {
        IrqTable { handlers: BTreeMap::new() }
    }
}

/// Installs `handler` for `irq`, replacing any earlier one. The caller
/// enables the IRQ line at the interrupt controller first.
pub fn register_handler<H>(table: &mut IrqTable<H>, irq: usize, handler: H)
    ensures
        final(table)@ == old(table)@.insert(irq, handler),
{
    let _ = table.handlers.insert(irq, handler);
}

/// The handler to run for `irq`, if one is registered; an interrupt without
/// a handler is ignored.
pub fn handle_irq<H>(table: &IrqTable<H>, irq: usize) -> (r: Option<&H>)
    ensures
        match r {
            Some(h) => table@.contains_key(irq) && *h == table@[irq],
            None => !table@.contains_key(irq),
        },
{
    table.handlers.get(&irq)
}

/// The handler that runs for an interrupt is the one registered last for
/// its IRQ number; registering for one IRQ leaves the others as they were.
pub proof fn lemma_handler_registered_last<H>(t: Map<usize, H>, irq: usize, h: H, other: usize)
    requires
        other != irq,
    ensures
        t.insert(irq, h).contains_key(irq),
        t.insert(irq, h)[irq] == h,
        t.insert(irq, h).contains_key(other) == t.contains_key(other),
        t.contains_key(other) ==> t.insert(irq, h)[other] == t[other],
{
}

} // verus!
