//! The per-message decision step of the streaming stage: allow-list filter,
//! registry update, gated computation, and construction of the outbound
//! event. The surrounding consume/produce loop and the transport itself
//! live outside the library; they hand each decoded message to `process`.

use crate::engine::{record_result, EngineModel};
use crate::registry::{has_key, registry_wf, InstrumentRegistry};
use crate::rsi::rsi_scaled;
use crate::window::slide;
use vstd::prelude::*;

verus! {

/// One inbound trade, already decoded from the transport: the instrument
/// identifier, the fixed-point price, and the event timestamp (passed
/// through verbatim).
pub struct TradeEvent {
    pub token: String,
    pub price: i64,
    pub timestamp: String,
}

/// One inbound message as the decoding boundary saw it: a well-formed trade,
/// or a payload that was absent, not text, or not of the trade schema.
pub enum Inbound {
    Trade(TradeEvent),
    Malformed,
}

/// One outbound indicator event: the scaled RSI for `token`, with the
/// triggering trade's timestamp and price copied verbatim.
pub struct IndicatorEvent {
    pub token: String,
    pub rsi: u64,
    pub timestamp: String,
    pub price: i64,
}

/// Ghost model of the pipeline: the allow-list and the registry contents.
pub struct PipelineModel {
    pub allow: Seq<Seq<char>>,
    pub registry: Seq<(Seq<char>, EngineModel)>,
}

/// Whether `k` is one of the tracked identifiers.
pub open spec fn allowed(allow: Seq<Seq<char>>, k: Seq<char>) -> bool {
    exists|i: int| 0 <= i < allow.len() && allow[i] == k
}

/// The outbound event owed for the trade `t` given the registry's answer
/// `r`: nothing while the sample threshold is unmet, otherwise the indicator event
/// carrying the trade's own identifier, timestamp and price.
pub open spec fn emitted(r: Option<u64>, t: TradeEvent) -> Option<IndicatorEvent> {
    match r {
        None => None,
        Some(v) => Some(
            IndicatorEvent { token: t.token, rsi: v, timestamp: t.timestamp, price: t.price },
        ),
    }
}

/// Orchestrates one inbound trade stream: filters by the static allow-list,
/// keeps per-instrument engines in a registry it exclusively owns, and
/// decides what to emit for each message.
pub struct Pipeline {
    allow: Vec<String>,
    registry: InstrumentRegistry,
}

impl View for Pipeline {
    type V = PipelineModel;

    closed spec fn view(&self) -> PipelineModel {
        PipelineModel { allow: self.allow.deep_view(), registry: self.registry@ }
    }
}

impl Pipeline {
    pub open spec fn wf(&self) -> bool {
        registry_wf(self@.registry)
    }

    /// A pipeline with the given static allow-list and no registry entries.
    pub fn new(allow: Vec<String>) -> (p: Pipeline)
        ensures
            p@.allow == allow.deep_view(),
            p@.registry == Seq::<(Seq<char>, EngineModel)>::empty(),
            p.wf(),
    {
        Pipeline { allow, registry: InstrumentRegistry::new() }
    }

    /// How many instruments have a registry entry.
    pub fn registry_len(&self) -> (n: usize)
        ensures
            n == self@.registry.len(),
    {
        self.registry.len()
    }

    /// Whether `token` has a registry entry.
    pub fn tracks(&self, token: &String) -> (b: bool)
        ensures
            b == has_key(self@.registry, token@),
    {
        self.registry.contains(token)
    }

    fn is_allowed(&self, token: &String) -> (b: bool)
        ensures
            b == allowed(self@.allow, token@),
    {
        let n = self.allow.len();
        let mut i: usize = 0;
        while i < n
            invariant
                i <= n,
                n == self.allow@.len(),
                forall|j: int| 0 <= j < i ==> self@.allow[j] != token@,
            decreases n - i,
        {
            if self.allow[i] == *token {
                proof {
                    assert(self@.allow[i as int] == token@);
                }
                return true;
            }
            i = i + 1;
        }
        false
    }

    /// Processes one inbound message. A malformed payload and a trade for a
    /// non-allow-listed instrument change nothing and emit nothing; an
    /// allow-listed trade is recorded in its instrument's engine (created on
    /// first sight) and yields an indicator event exactly when the engine's
    /// window has reached 15 samples.
    pub fn process(&mut self, msg: Inbound) -> (out: Option<IndicatorEvent>)
        requires
            old(self).wf(),
        ensures
            final(self).wf(),
            final(self)@.allow == old(self)@.allow,
            (match msg {
                Inbound::Malformed => final(self)@ == old(self)@ && out is None,
                Inbound::Trade(t) => {
                    if !allowed(old(self)@.allow, t.token@) {
                        final(self)@ == old(self)@ && out is None
                    } else if !has_key(old(self)@.registry, t.token@) {
                        &&& final(self)@.registry == old(self)@.registry.push(
                            (t.token@, (EngineModel {
                                prices: seq![t.price],
                                last_rsi: 50_000_000,
                            })),
                        )
                        &&& out is None
                    } else {
                        &&& final(self)@.registry.len() == old(self)@.registry.len()
                        &&& forall|j: int|
                            0 <= j < old(self)@.registry.len() && (#[trigger] old(
                                self,
                            )@.registry[j]).0 != t.token@ ==> final(self)@.registry[j] == old(
                                self,
                            )@.registry[j]
                        &&& forall|j: int|
                            0 <= j < old(self)@.registry.len() && (#[trigger] old(
                                self,
                            )@.registry[j]).0 == t.token@ ==> {
                                &&& final(self)@.registry[j].0 == t.token@
                                &&& final(self)@.registry[j].1.prices == slide(
                                    old(self)@.registry[j].1.prices,
                                    t.price,
                                )
                                &&& final(self)@.registry[j].1.last_rsi == if slide(
                                    old(self)@.registry[j].1.prices,
                                    t.price,
                                ).len() >= 15 {
                                    rsi_scaled(slide(old(self)@.registry[j].1.prices, t.price))
                                } else {
                                    old(self)@.registry[j].1.last_rsi
                                }
                                &&& out == emitted(
                                    record_result(old(self)@.registry[j].1.prices, t.price),
                                    t,
                                )
                            }
                    }
                },
            }),
    {
        match msg {
            Inbound::Malformed => None,
            Inbound::Trade(t) => {
                if !self.is_allowed(&t.token) {
                    return None;
                }
                let r = self.registry.record_price(&t.token, t.price);
                match r {
                    None => None,
                    Some(v) => Some(
                        IndicatorEvent {
                            token: t.token,
                            rsi: v,
                            timestamp: t.timestamp,
                            price: t.price,
                        },
                    ),
                }
            },
        }
    }
}

} // verus!
