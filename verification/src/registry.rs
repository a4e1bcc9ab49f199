//! Mapping from instrument identifier to its indicator engine, with
//! creation on first sight.

use crate::engine::{model_wf, record_result, EngineModel, IndicatorEngine};
use crate::rsi::rsi_scaled;
use crate::window::slide;
use vstd::prelude::*;

verus! {

/// Whether some entry of `s` carries the key `k`.
pub open spec fn has_key(s: Seq<(Seq<char>, EngineModel)>, k: Seq<char>) -> bool {
    exists|i: int| 0 <= i < s.len() && (#[trigger] s[i]).0 == k
}

/// Well-formedness of the registry contents: keys are unique and every
/// engine model is well-formed.
pub open spec fn registry_wf(s: Seq<(Seq<char>, EngineModel)>) -> bool {
    &&& forall|i: int, j: int|
        0 <= i < j < s.len() ==> (#[trigger] s[i]).0 != (#[trigger] s[j]).0
    &&& forall|i: int| 0 <= i < s.len() ==> model_wf((#[trigger] s[i]).1)
}

/// One registry entry: an instrument identifier and the engine that tracks
/// it.
struct Entry {
    key: String,
    engine: IndicatorEngine,
}

/// Maps instrument identifiers to engines. Entries are created lazily on
/// first sight and never evicted; keys stay unique.
pub struct InstrumentRegistry {
    entries: Vec<Entry>,
}

impl View for InstrumentRegistry {
    type V = Seq<(Seq<char>, EngineModel)>;

    closed spec fn view(&self) -> Seq<(Seq<char>, EngineModel)> {
        self.entries@.map(|i: int, e: Entry| (e.key@, e.engine@))
    }
}

impl InstrumentRegistry {
    pub open spec fn wf(&self) -> bool {
        registry_wf(self@)
    }

    pub fn new() -> (r: InstrumentRegistry)
        ensures
            r@ == Seq::<(Seq<char>, EngineModel)>::empty(),
            r.wf(),
    {
        let r = InstrumentRegistry { entries: Vec::new() };
        proof {
            assert(r@ =~= Seq::<(Seq<char>, EngineModel)>::empty());
        }
        r
    }

    /// How many instruments have an entry.
    pub fn len(&self) -> (n: usize)
        ensures
            n == self@.len(),
    {
        self.entries.len()
    }

    /// Whether `token` already has an entry.
    pub fn contains(&self, token: &String) -> (b: bool)
        ensures
            b == has_key(self@, token@),
    {
        self.find(token).is_some()
    }

    /// The index of the entry keyed by `token`, if any.
    fn find(&self, token: &String) -> (r: Option<usize>)
        ensures
            match r {
                Some(i) => i < self@.len() && self@[i as int].0 == token@,
                None => !has_key(self@, token@),
            },
    {
        let n = self.entries.len();
        let mut i: usize = 0;
        while i < n
            invariant
                i <= n,
                n == self.entries@.len(),
                forall|j: int| 0 <= j < i ==> (#[trigger] self@[j]).0 != token@,
            decreases n - i,
        {
            if self.entries[i].key == *token {
                return Some(i);
            }
            i = i + 1;
        }
        None
    }

    /// Returns the engine for `token`, inserting a freshly constructed one
    /// (empty window, neutral RSI) when the identifier has no entry yet.
    /// What the registry holds afterwards depends on what the caller does
    /// through the returned borrow, so the contract relates the final
    /// registry to the final engine.
    pub fn get_or_create(&mut self, token: &String) -> (e: &mut IndicatorEngine)
        requires
            old(self).wf(),
        ensures
            !has_key(old(self)@, token@) ==> {
                &&& (*e)@ == (EngineModel {
                    prices: Seq::<i64>::empty(),
                    last_rsi: 50_000_000,
                })
                &&& final(self)@ =~~= old(self)@.push((token@, (*final(e))@))
            },
            has_key(old(self)@, token@) ==> (forall|j: int|
                0 <= j < old(self)@.len() && (#[trigger] old(self)@[j]).0 == token@ ==> {
                    &&& (*e)@ == old(self)@[j].1
                    &&& final(self)@ =~~= old(self)@.update(j, (token@, (*final(e))@))
                }),
    {
        let idx: usize;
        match self.find(token) {
            Some(i) => {
                idx = i;
            },
            None => {
                self.entries.push(Entry { key: token.clone(), engine: IndicatorEngine::new() });
                idx = self.entries.len() - 1;
                proof {
                    assert(self@ =~~= old(self)@.push(
                        (token@, (EngineModel {
                            prices: Seq::<i64>::empty(),
                            last_rsi: 50_000_000,
                        })),
                    ));
                }
            },
        }
        &mut self.entries[idx].engine
    }

    /// Looks up the engine for `token`, creating a fresh one on first
    /// sight, then records the price there and returns the gated RSI. A
    /// non-tracked identifier never reaches this method: the pipeline
    /// filters first.
    pub fn record_price(&mut self, token: &String, price: i64) -> (r: Option<u64>)
        requires
            old(self).wf(),
        ensures
            final(self).wf(),
            !has_key(old(self)@, token@) ==> {
                &&& final(self)@ == old(self)@.push(
                    (token@, (EngineModel { prices: seq![price], last_rsi: 50_000_000 })),
                )
                &&& r is None
            },
            has_key(old(self)@, token@) ==> {
                &&& final(self)@.len() == old(self)@.len()
                &&& forall|j: int|
                    0 <= j < old(self)@.len() && (#[trigger] old(self)@[j]).0 != token@
                        ==> final(self)@[j] == old(self)@[j]
                &&& forall|j: int|
                    0 <= j < old(self)@.len() && (#[trigger] old(self)@[j]).0 == token@ ==> {
                        &&& final(self)@[j].0 == token@
                        &&& final(self)@[j].1.prices == slide(old(self)@[j].1.prices, price)
                        &&& r == record_result(old(self)@[j].1.prices, price)
                        &&& final(self)@[j].1.last_rsi == if slide(
                            old(self)@[j].1.prices,
                            price,
                        ).len() >= 15 {
                            rsi_scaled(slide(old(self)@[j].1.prices, price))
                        } else {
                            old(self)@[j].1.last_rsi
                        }
                    }
            },
    {
        let ghost pre = self@;
        let e = self.get_or_create(token);
        let r = e.record_and_maybe_compute(price);
        proof {
            if !has_key(pre, token@) {
                assert(slide(Seq::<i64>::empty(), price) =~= seq![price]);
                assert(self@ =~~= pre.push(
                    (token@, (EngineModel { prices: seq![price], last_rsi: 50_000_000 })),
                ));
                assert forall|a: int, b: int| 0 <= a < b < self@.len() implies (#[trigger] self@[a]).0
                    != (#[trigger] self@[b]).0 by {
                    if b < pre.len() {
                        assert(self@[a] == pre[a] && self@[b] == pre[b]);
                    } else {
                        assert(self@[a] == pre[a] && pre[a].0 != token@);
                    }
                }
                assert forall|a: int| 0 <= a < self@.len() implies model_wf(
                    (#[trigger] self@[a]).1,
                ) by {
                    if a < pre.len() {
                        assert(self@[a] == pre[a]);
                    }
                }
            } else {
                let j = choose|j: int| 0 <= j < pre.len() && (#[trigger] pre[j]).0 == token@;
                assert forall|a: int| 0 <= a < self@.len() implies (#[trigger] self@[a]).0
                    == pre[a].0 by {
                    if a != j {
                        assert(self@[a] == pre[a]);
                    }
                }
                assert forall|a: int, b: int| 0 <= a < b < self@.len() implies (#[trigger] self@[a]).0
                    != (#[trigger] self@[b]).0 by {
                    assert(pre[a].0 != pre[b].0);
                }
                assert forall|a: int| 0 <= a < self@.len() implies model_wf(
                    (#[trigger] self@[a]).1,
                ) by {
                    if a != j {
                        assert(self@[a] == pre[a]);
                    }
                }
            }
        }
        r
    }
}

} // verus!
