//! Per-instrument indicator state: one price window plus the last computed
//! RSI, with the minimum-sample gating rule.

use crate::rsi::{compute_rsi, lemma_rsi_in_range, rsi_scaled};
use crate::window::{slide, PriceWindow};
use vstd::prelude::*;

verus! {

/// Ghost model of an engine: the window contents (oldest first) and the
/// last computed scaled RSI.
pub struct EngineModel {
    pub prices: Seq<i64>,
    pub last_rsi: int,
}

/// Well-formedness of an engine model: the window respects its capacity and
/// the carried RSI lies in the oscillator's range.
pub open spec fn model_wf(m: EngineModel) -> bool {
    m.prices.len() <= 50 && 0 <= m.last_rsi <= 100_000_000
}

/// What recording `price` into a window previously holding `w` returns:
/// nothing while the slid window still has fewer than 15 samples, otherwise
/// the scaled RSI of the slid window.
pub open spec fn record_result(w: Seq<i64>, price: i64) -> Option<u64> {
    if slide(w, price).len() < 15 {
        None
    } else {
        Some(rsi_scaled(slide(w, price)) as u64)
    }
}

/// Owns one price window and computes the RSI from it on demand; below 15
/// samples nothing is emitted, though the price is still recorded. The
/// stored RSI starts at the neutral 50 (scaled: 50_000_000) and is an
/// informational carry-over only.
pub struct IndicatorEngine {
    window: PriceWindow,
    last_rsi: u64,
}

impl View for IndicatorEngine {
    type V = EngineModel;

    closed spec fn view(&self) -> EngineModel {
        EngineModel { prices: self.window@, last_rsi: self.last_rsi as int }
    }
}

impl IndicatorEngine {
    pub open spec fn wf(&self) -> bool {
        model_wf(self@)
    }

    pub fn new() -> (e: IndicatorEngine)
        ensures
            e@.prices == Seq::<i64>::empty(),
            e@.last_rsi == 50_000_000,
            e.wf(),
    {
        IndicatorEngine { window: PriceWindow::new(), last_rsi: 50_000_000 }
    }

    /// The last computed RSI, or the neutral default before any computation.
    pub fn last_rsi(&self) -> (v: u64)
        ensures
            v as int == self@.last_rsi,
    {
        self.last_rsi
    }

    pub fn window_len(&self) -> (n: usize)
        ensures
            n == self@.prices.len(),
    {
        self.window.len()
    }

    pub fn price_at(&self, i: usize) -> (p: i64)
        requires
            i < self@.prices.len(),
        ensures
            p == self@.prices[i as int],
    {
        self.window.get(i)
    }

    /// Records the price unconditionally, then computes, stores and returns
    /// the RSI once the window holds at least 15 samples; below that threshold
    /// nothing is computed or returned.
    pub fn record_and_maybe_compute(&mut self, price: i64) -> (r: Option<u64>)
        requires
            old(self).wf(),
        ensures
            final(self).wf(),
            final(self)@.prices == slide(old(self)@.prices, price),
            r == record_result(old(self)@.prices, price),
            final(self)@.prices.len() < 15 ==> r is None,
            final(self)@.last_rsi == if slide(old(self)@.prices, price).len() >= 15 {
                rsi_scaled(slide(old(self)@.prices, price))
            } else {
                old(self)@.last_rsi
            },
    {
        self.window.append(price);
        if self.window.len() < 15 {
            None
        } else {
            proof {
                lemma_rsi_in_range(self.window@);
            }
            let v = compute_rsi(self.window.as_vec());
            self.last_rsi = v;
            Some(v)
        }
    }
}

} // verus!
