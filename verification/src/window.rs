//! Bounded rolling price history for one instrument.

use vstd::prelude::*;

verus! {

/// The window contents after appending `price`: the new price goes to the
/// end, and when the window is already at capacity the oldest entry leaves.
pub open spec fn slide(s: Seq<i64>, price: i64) -> Seq<i64> {
    if s.len() < 50 {
        s.push(price)
    } else {
        s.subrange(1, s.len() as int).push(price)
    }
}

/// An ordered sequence of recent prices for one instrument, oldest first.
/// Holds at most 50 entries; appending beyond that evicts the oldest (FIFO).
/// Prices are fixed-point integers in the caller's chosen unit.
pub struct PriceWindow {
    prices: Vec<i64>,
}

impl View for PriceWindow {
    type V = Seq<i64>;

    closed spec fn view(&self) -> Seq<i64> {
        self.prices@
    }
}

impl PriceWindow {
    /// The capacity bound is an invariant, not merely a consequence of
    /// `append`: every constructor and method keeps the length at most 50.
    pub open spec fn wf(&self) -> bool {
        self@.len() <= 50
    }

    pub fn new() -> (w: PriceWindow)
        ensures
            w@ == Seq::<i64>::empty(),
            w.wf(),
    {
        PriceWindow { prices: Vec::new() }
    }

    pub fn len(&self) -> (n: usize)
        ensures
            n == self@.len(),
    {
        self.prices.len()
    }

    pub fn get(&self, i: usize) -> (p: i64)
        requires
            i < self@.len(),
        ensures
            p == self@[i as int],
    {
        self.prices[i]
    }

    /// Borrows the prices as a plain vector, oldest first.
    pub fn as_vec(&self) -> (v: &Vec<i64>)
        ensures
            v@ == self@,
    {
        &self.prices
    }

    /// Appends `price` unconditionally; when the window already holds 50
    /// entries the oldest one is removed, so the remaining 49 keep their
    /// relative order ahead of the new entry.
    pub fn append(&mut self, price: i64)
        requires
            old(self).wf(),
        ensures
            final(self).wf(),
            final(self)@ == slide(old(self)@, price),
            final(self)@.len() == if old(self)@.len() < 50 { old(self)@.len() + 1 } else { 50nat },
    {
        self.prices.push(price);
        if self.prices.len() > 50 {
            self.prices.remove(0);
        }
        proof {
            assert(self@ =~= slide(old(self)@, price));
        }
    }
}

} // verus!
