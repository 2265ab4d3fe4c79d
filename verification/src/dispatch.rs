//! The interrupt dispatcher: from the bitmask of pending interrupts to the
//! handlers that are bound to them.

use vstd::prelude::*;
use crate::registers::PicoRV32StoredRegisters;

verus! {

/// Number of interrupt sources of the core.
pub const IRQ_COUNT: u8 = 32;

/// Bit `irq` of `mask` is set.
pub open spec fn bit_is_set(mask: u32, irq: int) -> bool
    recommends
        0 <= irq < 32,
{
    mask & (1u32 << (irq as u32)) != 0
}

/// The numbers below `limit` whose bit is set in `irqs` and for which
/// `bound` holds, in ascending order.
pub open spec fn service_order_below(irqs: u32, bound: spec_fn(int) -> bool, limit: int) -> Seq<u8>
    decreases limit,
{
    if limit <= 0 {
        Seq::empty()
    } else {
        let earlier = service_order_below(irqs, bound, limit - 1);
        if bit_is_set(irqs, limit - 1) && bound(limit - 1) {
            earlier.push((limit - 1) as u8)
        } else {
            earlier
        }
    }
}

/// The interrupts that a trap with the pending bitmask `irqs` services, in
/// the order in which it services them: every number from 0 to 31 whose bit
/// is set in `irqs` and for which `bound` holds, in ascending order.
pub open spec fn service_order(irqs: u32, bound: spec_fn(int) -> bool) -> Seq<u8> {
    service_order_below(irqs, bound, 32)
}

/// Every entry of the service order up to `limit` is the number of a
/// pending interrupt with a handler, every such number below `limit` is an
/// entry, and the entries ascend strictly.
pub proof fn lemma_service_order_below(irqs: u32, bound: spec_fn(int) -> bool, limit: int)
    requires
        0 <= limit <= 32,
    ensures
        service_order_below(irqs, bound, limit).len() <= limit,
        forall|k: int|
            0 <= k < service_order_below(irqs, bound, limit).len() ==> {
                let irq = #[trigger] service_order_below(irqs, bound, limit)[k] as int;
                0 <= irq < limit && bit_is_set(irqs, irq) && bound(irq)
            },
        forall|irq: int|
            #![trigger bit_is_set(irqs, irq)]
            0 <= irq < limit && bit_is_set(irqs, irq) && bound(irq) ==> service_order_below(
                irqs,
                bound,
                limit,
            ).contains(irq as u8),
        forall|j: int, k: int|
            0 <= j < k < service_order_below(irqs, bound, limit).len() ==> service_order_below(
                irqs,
                bound,
                limit,
            )[j] < service_order_below(irqs, bound, limit)[k],
    decreases limit,
{
    if limit > 0 {
        lemma_service_order_below(irqs, bound, limit - 1);
        let earlier = service_order_below(irqs, bound, limit - 1);
        let now = service_order_below(irqs, bound, limit);
        assert forall|irq: int|
            0 <= irq < limit && bit_is_set(irqs, irq) && bound(irq) implies now.contains(
            irq as u8,
        ) by {
            if irq < limit - 1 {
                assert(earlier.contains(irq as u8));
                let k = choose|k: int| 0 <= k < earlier.len() && earlier[k] == irq as u8;
                assert(now[k] == irq as u8);
            } else {
                assert(now[now.len() - 1] == irq as u8);
            }
        }
    }
}

/// The service order holds exactly the numbers from 0 to 31 whose bit is
/// set in `irqs` and to which a handler is bound, each once, in ascending
/// order.
pub proof fn lemma_service_order(irqs: u32, bound: spec_fn(int) -> bool)
    ensures
        forall|k: int|
            0 <= k < service_order(irqs, bound).len() ==> {
                let irq = #[trigger] service_order(irqs, bound)[k] as int;
                0 <= irq < 32 && bit_is_set(irqs, irq) && bound(irq)
            },
        forall|irq: int|
            #![trigger bit_is_set(irqs, irq)]
            0 <= irq < 32 && bit_is_set(irqs, irq) && bound(irq) ==> service_order(
                irqs,
                bound,
            ).contains(irq as u8),
        forall|j: int, k: int|
            0 <= j < k < service_order(irqs, bound).len() ==> service_order(irqs, bound)[j]
                < service_order(irqs, bound)[k],
{
    lemma_service_order_below(irqs, bound, 32);
}

/// Where no pending interrupt has a handler, nothing is serviced.
pub proof fn lemma_nothing_pending_nothing_serviced(irqs: u32, bound: spec_fn(int) -> bool)
    requires
        forall|irq: int|
            #![trigger bit_is_set(irqs, irq)]
            0 <= irq < 32 ==> !(bit_is_set(irqs, irq) && bound(irq)),
    ensures
        service_order(irqs, bound) == Seq::<u8>::empty(),
{
    lemma_service_order_below(irqs, bound, 32);
    let order = service_order(irqs, bound);
    if order.len() > 0 {
        let irq = order[0] as int;
        assert(bit_is_set(irqs, irq) && bound(irq));
    }
}

/// Default trap handler: the handler that stands in where a program
/// without interrupt support binds none.  It does nothing with the bitmask.
pub fn default_trap_handler(_irqs: u32) {
}

/// The dispatcher of a build without interrupt support: there is no table
/// and no register context, and the one handler gets the bitmask of pending
/// interrupts, whatever it holds.
pub fn trap_handler_bare<D: FnOnce(u32)>(handler: D, irqs: u32)
    requires
        call_requires(handler, (irqs,)),
    ensures
        call_ensures(handler, (irqs,), ()),
{
    handler(irqs)
}

/// Every interrupt number in `pairs` is one of 0 to 31 and none occurs
/// twice.
pub open spec fn distinct_interrupts<H>(pairs: Seq<(u8, H)>) -> bool {
    &&& forall|i: int| 0 <= i < pairs.len() ==> (#[trigger] pairs[i]).0 < 32
    &&& forall|i: int, j: int|
        0 <= i < j < pairs.len() ==> (#[trigger] pairs[i]).0 != (#[trigger] pairs[j]).0
}

/// The handler table: which handler, if any, is bound to each of the
/// interrupt numbers 0 to 31.
pub struct HandlerTable<H> {
    slots: Vec<Option<H>>,
}

impl<H> HandlerTable<H> {
    /// What holds of every table.
    #[verifier::type_invariant]
    pub closed spec fn inv(&self) -> bool {
        self.slots@.len() == 32
    }

    /// A handler is bound to the interrupt number `irq`.
    pub closed spec fn is_bound(&self, irq: int) -> bool {
        0 <= irq < 32 && self.slots@[irq] is Some
    }

    /// The handler that is bound to the interrupt number `irq`.
    pub closed spec fn handler(&self, irq: int) -> H
        recommends
            self.is_bound(irq),
    {
        self.slots@[irq]->0
    }

    /// The interrupts that a trap with the pending bitmask `irqs` services
    /// with this table, in the order in which it services them.
    pub open spec fn order(&self, irqs: u32) -> Seq<u8> {
        service_order(irqs, self.bound())
    }

    /// The numbers that a handler is bound to, as a predicate.
    pub open spec fn bound(&self) -> spec_fn(int) -> bool {
        |irq: int| self.is_bound(irq)
    }

    /// A table with no handler bound.
    pub fn new() -> (table: Self)
        ensures
            forall|irq: int| !table.is_bound(irq),
    {
        let mut slots: Vec<Option<H>> = Vec::new();
        let mut n: u8 = 0;
        while n < 32
            invariant
                n <= 32,
                slots@.len() == n,
                forall|i: int| 0 <= i < n ==> slots@[i] is None,
            decreases 32 - n,
        {
            slots.push(None);
            n = n + 1;
        }
        HandlerTable { slots }
    }

    /// Binds `handler` to the interrupt number `irq`.
    ///
    /// The table maps each number to at most one handler and knows the
    /// numbers 0 to 31 only: where `irq` is larger, or has a handler
    /// already, the table stays as it was and the result is `false`.
    pub fn bind(&mut self, irq: u8, handler: H) -> (bound: bool)
        ensures
            bound == (irq < 32 && !old(self).is_bound(irq as int)),
            bound ==> final(self).is_bound(irq as int) && final(self).handler(irq as int)
                == handler,
            forall|other: int|
                other != irq || !bound ==> final(self).is_bound(other) == old(self).is_bound(other),
            forall|other: int|
                old(self).is_bound(other) ==> final(self).handler(other) == old(self).handler(
                    other,
                ),
    {
        proof {
            use_type_invariant(&*self);
        }
        if irq >= 32 {
            return false;
        }
        if self.slots[irq as usize].is_some() {
            return false;
        }
        self.slots[irq as usize] = Some(handler);
        true
    }

    /// Makes the table that a list of bindings describes: each pair holds an
    /// interrupt number and the handler for it.
    ///
    /// Returns `None` where the list cannot be a table: where a number is
    /// above 31 or occurs twice.
    pub fn from_pairs(pairs: Vec<(u8, H)>) -> (table: Option<Self>)
        ensures
            table is Some <==> distinct_interrupts(pairs@),
            table matches Some(t) ==> {
                &&& forall|irq: int|
                    t.is_bound(irq) <==> exists|i: int|
                        0 <= i < pairs@.len() && (#[trigger] pairs@[i]).0 == irq
                &&& forall|i: int|
                    0 <= i < pairs@.len() ==> t.handler((#[trigger] pairs@[i]).0 as int)
                        == pairs@[i].1
            },
    {
        let ghost all = pairs@;
        let mut rest: Vec<(u8, H)> = pairs;
        let mut table: Self = Self::new();
        while rest.len() > 0
            invariant
                all == pairs@,
                rest@.len() <= all.len(),
                rest@ == all.subrange(0, rest@.len() as int),
                forall|i: int, j: int|
                    rest@.len() <= i < j < all.len() ==> (#[trigger] all[i]).0 != (
                    #[trigger] all[j]).0,
                forall|i: int| rest@.len() <= i < all.len() ==> (#[trigger] all[i]).0 < 32,
                forall|irq: int|
                    table.is_bound(irq) <==> exists|i: int|
                        rest@.len() <= i < all.len() && (#[trigger] all[i]).0 == irq,
                forall|i: int|
                    rest@.len() <= i < all.len() ==> table.handler((#[trigger] all[i]).0 as int)
                        == all[i].1,
            decreases rest@.len(),
        {
            let ghost last = rest@.len() - 1;
            let ghost before = table;
            match rest.pop() {
                Some((irq, handler)) => {
                    assert(all[last] == (irq, handler));
                    if !table.bind(irq, handler) {
                        proof {
                            if irq < 32 {
                                let j = choose|j: int|
                                    last < j < all.len() && (#[trigger] all[j]).0 == irq;
                                assert(all[last].0 == all[j].0);
                            } else {
                                assert(!(all[last].0 < 32));
                            }
                            assert(!distinct_interrupts(all));
                        }
                        return None;
                    }
                    proof {
                        assert forall|n: int| table.is_bound(n) implies exists|i: int|
                            last <= i < all.len() && (#[trigger] all[i]).0 == n by {
                            if n == irq {
                                assert(all[last].0 == n);
                            } else {
                                assert(before.is_bound(n));
                                let i = choose|i: int|
                                    last < i < all.len() && (#[trigger] all[i]).0 == n;
                                assert(all[i].0 == n);
                            }
                        }
                        assert forall|i: int| last <= i < all.len() implies table.handler(
                            (#[trigger] all[i]).0 as int,
                        ) == all[i].1 by {
                            if i > last {
                                assert(before.is_bound(all[i].0 as int));
                            }
                        }
                    }
                },
                None => {},
            }
        }
        Some(table)
    }

    /// Tells whether a handler is bound to the interrupt number `irq`.
    pub fn has_handler(&self, irq: u8) -> (bound: bool)
        ensures
            bound == self.is_bound(irq as int),
    {
        proof {
            use_type_invariant(self);
        }
        irq < 32 && self.slots[irq as usize].is_some()
    }
}

/// Interrupt dispatcher: calls the handler of every pending interrupt that
/// has one.
///
/// The numbers 0 to 31 are gone through in ascending order.  Where bit
/// `irq` of `irqs` is set and `table` binds a handler to `irq`, that handler
/// is called with `regs`; it runs to its end before the next number is
/// looked at.  A set bit without a handler and a handler without a set bit
/// are passed over.  The result lists the numbers whose handler was called,
/// in the order of the calls; what each of those handlers promises of a
/// call holds.
pub fn trap_handler<H: Fn(&PicoRV32StoredRegisters)>(
    table: &HandlerTable<H>,
    regs: &PicoRV32StoredRegisters,
    irqs: u32,
) -> (serviced: Vec<u8>)
    requires
        forall|irq: int| table.is_bound(irq) ==> call_requires(table.handler(irq), (regs,)),
    ensures
        serviced@ == table.order(irqs),
        forall|k: int|
            0 <= k < serviced@.len() ==> call_ensures(
                table.handler(#[trigger] serviced@[k] as int),
                (regs,),
                (),
            ),
{
    proof {
        use_type_invariant(table);
    }
    let mut serviced: Vec<u8> = Vec::new();
    let mut irq: u8 = 0;
    while irq < IRQ_COUNT
        invariant
            irq <= 32,
            table.slots@.len() == 32,
            serviced@ == service_order_below(irqs, table.bound(), irq as int),
            forall|n: int| table.is_bound(n) ==> call_requires(table.handler(n), (regs,)),
            forall|k: int|
                0 <= k < serviced@.len() ==> call_ensures(
                    table.handler(#[trigger] serviced@[k] as int),
                    (regs,),
                    (),
                ),
        decreases 32 - irq,
    {
        if irqs & (1u32 << (irq as u32)) != 0 {
            match &table.slots[irq as usize] {
                Some(handler) => {
                    assert(table.is_bound(irq as int));
                    assert(table.handler(irq as int) == *handler);
                    handler(regs);
                    serviced.push(irq);
                },
                None => {},
            }
        }
        irq = irq + 1;
    }
    serviced
}

} // verus!
