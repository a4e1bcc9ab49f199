use rsi_stream::engine::IndicatorEngine;
use rsi_stream::registry::InstrumentRegistry;
use rsi_stream::window::PriceWindow;

#[test]
fn window_below_capacity_keeps_all() {
    let mut w = PriceWindow::new();
    w.append(7);
    w.append(-3);
    w.append(12);
    assert_eq!(w.len(), 3);
    assert_eq!(w.get(0), 7);
    assert_eq!(w.get(1), -3);
    assert_eq!(w.get(2), 12);
}

#[test]
fn window_caps_at_fifty_and_evicts_oldest() {
    let mut w = PriceWindow::new();
    for p in 0..50i64 {
        w.append(p);
        assert!(w.len() <= 50);
    }
    assert_eq!(w.len(), 50);
    // The 51st price evicts exactly the oldest; the remaining 49 keep their
    // relative order ahead of the new one.
    w.append(50);
    assert_eq!(w.len(), 50);
    for i in 0..50usize {
        assert_eq!(w.get(i), (i + 1) as i64);
    }
}

#[test]
fn fewer_than_fifteen_prices_yield_none() {
    let mut e = IndicatorEngine::new();
    for p in 1..=14i64 {
        let r = e.record_and_maybe_compute(p * 1_000_000);
        assert!(r.is_none());
    }
    assert_eq!(e.window_len(), 14);
    // the carried RSI stays at the neutral default below the threshold
    assert_eq!(e.last_rsi(), 50_000_000);
}

#[test]
fn fifteenth_price_yields_a_value() {
    let mut e = IndicatorEngine::new();
    for p in 1..=14i64 {
        assert!(e.record_and_maybe_compute(p).is_none());
    }
    let r = e.record_and_maybe_compute(15);
    assert!(r.is_some());
}

#[test]
fn all_gains_window_rsi_is_100() {
    let mut e = IndicatorEngine::new();
    let mut last = None;
    for p in 1..=15i64 {
        last = e.record_and_maybe_compute(p * 10_000);
    }
    assert_eq!(last, Some(100_000_000));
}

#[test]
fn flat_window_rsi_is_100() {
    // no downward change at all: the division-by-zero guard pins RSI to 100
    let mut e = IndicatorEngine::new();
    let mut last = None;
    for _ in 0..15 {
        last = e.record_and_maybe_compute(42);
    }
    assert_eq!(last, Some(100_000_000));
}

#[test]
fn all_losses_window_rsi_is_0() {
    let mut e = IndicatorEngine::new();
    let mut last = None;
    for p in (1..=15i64).rev() {
        last = e.record_and_maybe_compute(p * 10_000);
    }
    assert_eq!(last, Some(0));
}

#[test]
fn rsi_within_range_for_mixed_window() {
    let mut e = IndicatorEngine::new();
    let prices: [i64; 15] = [
        5, -80, 63, 2, 900, -14, 77, 77, -1000, 500, 499, 501, 0, 250_000, -250_000,
    ];
    let mut last = None;
    for p in prices {
        last = e.record_and_maybe_compute(p);
    }
    let v = last.expect("15 samples must produce a value");
    assert!(v <= 100_000_000);
}

#[test]
fn rsi_exact_value_for_mixed_window() {
    // changes: +100000, then -50000 and +150000 alternating; gains = 1_000_000,
    // losses = 350_000, so RSI = 100 * 1_000_000 / 1_350_000 = 74.074074...
    let prices: [i64; 15] = [
        1_000_000, 1_100_000, 1_050_000, 1_200_000, 1_150_000, 1_300_000, 1_250_000, 1_400_000,
        1_350_000, 1_500_000, 1_450_000, 1_600_000, 1_550_000, 1_700_000, 1_650_000,
    ];
    let mut e = IndicatorEngine::new();
    let mut last = None;
    for p in prices {
        last = e.record_and_maybe_compute(p);
    }
    assert_eq!(last, Some(74_074_074));
    assert_eq!(e.last_rsi(), 74_074_074);
}

#[test]
fn rsi_sums_over_every_pair_once_window_grows() {
    // 20 prices alternating +3 / -2: ten upward changes and nine downward
    // ones, all summed with the fixed divisor cancelling:
    // RSI = 100 * 30 / (30 + 18) = 62.5 exactly.
    let mut e = IndicatorEngine::new();
    let mut last = None;
    for k in 0..10i64 {
        last = e.record_and_maybe_compute(k);
        if k < 9 {
            last = e.record_and_maybe_compute(k + 3);
        }
    }
    assert_eq!(e.window_len(), 19);
    last = e.record_and_maybe_compute(12);
    assert_eq!(e.window_len(), 20);
    assert_eq!(last, Some(62_500_000));
}

#[test]
fn eviction_feeds_the_computation() {
    // ten falling prices followed by fifty rising ones: once the window has
    // slid past the falling prefix, only upward changes remain and the RSI
    // pins to 100.
    let mut e = IndicatorEngine::new();
    for p in (91..=100i64).rev() {
        e.record_and_maybe_compute(p);
    }
    let mut last = None;
    for p in 101..=150i64 {
        last = e.record_and_maybe_compute(p);
    }
    assert_eq!(e.window_len(), 50);
    // the falling prefix has been evicted: the window starts at 101
    assert_eq!(e.price_at(0), 101);
    assert_eq!(e.price_at(49), 150);
    assert_eq!(last, Some(100_000_000));
}

#[test]
fn registry_creates_entry_on_first_sight() {
    let mut reg = InstrumentRegistry::new();
    assert_eq!(reg.len(), 0);
    let a = String::from("TOKEN1");
    let b = String::from("TOKEN2");
    assert!(reg.record_price(&a, 100).is_none());
    assert_eq!(reg.len(), 1);
    assert!(reg.contains(&a));
    assert!(!reg.contains(&b));
    assert!(reg.record_price(&b, 100).is_none());
    assert_eq!(reg.len(), 2);
    // a repeated identifier reuses its entry
    assert!(reg.record_price(&a, 101).is_none());
    assert_eq!(reg.len(), 2);
}

#[test]
fn registry_returns_gated_rsi() {
    let mut reg = InstrumentRegistry::new();
    let tok = String::from("TOKEN3");
    for p in 1..=14i64 {
        assert!(reg.record_price(&tok, p).is_none());
    }
    assert_eq!(reg.record_price(&tok, 15), Some(100_000_000));
}
