use rsi_stream::pipeline::{Inbound, Pipeline, TradeEvent};

fn allow_list() -> Vec<String> {
    vec![
        String::from("TOKEN1"),
        String::from("TOKEN2"),
        String::from("TOKEN3"),
        String::from("TOKEN4"),
        String::from("TOKEN5"),
    ]
}

fn trade(token: &str, price: i64, timestamp: &str) -> Inbound {
    Inbound::Trade(TradeEvent {
        token: String::from(token),
        price,
        timestamp: String::from(timestamp),
    })
}

#[test]
fn end_to_end_fifteen_prices_token1() {
    // the fifteen prices 1.0, 1.1, 1.05, ... expressed in millionths
    let prices: [i64; 15] = [
        1_000_000, 1_100_000, 1_050_000, 1_200_000, 1_150_000, 1_300_000, 1_250_000, 1_400_000,
        1_350_000, 1_500_000, 1_450_000, 1_600_000, 1_550_000, 1_700_000, 1_650_000,
    ];
    let mut p = Pipeline::new(allow_list());
    let mut events = Vec::new();
    for (i, price) in prices.iter().enumerate() {
        let ts = format!("t{}", i);
        if let Some(ev) = p.process(trade("TOKEN1", *price, &ts)) {
            events.push(ev);
        }
    }
    assert_eq!(events.len(), 1);
    let ev = &events[0];
    assert_eq!(ev.token, "TOKEN1");
    // gains 1.0, losses 0.35: RSI = 100 / 1.35 = 74.074074... under the scale
    assert_eq!(ev.rsi, 74_074_074);
    assert_eq!(ev.price, 1_650_000);
    assert_eq!(ev.timestamp, "t14");
}

#[test]
fn end_to_end_fourteen_prices_no_event() {
    let mut p = Pipeline::new(allow_list());
    let mut emitted = 0;
    for i in 0..14i64 {
        if p.process(trade("TOKEN2", 1_000_000 + i, "ts")).is_some() {
            emitted += 1;
        }
    }
    assert_eq!(emitted, 0);
    assert_eq!(p.registry_len(), 1);
}

#[test]
fn unknown_token_creates_nothing() {
    let mut p = Pipeline::new(allow_list());
    let out = p.process(trade("UNKNOWN_TOKEN", 2_500_000, "ts"));
    assert!(out.is_none());
    assert_eq!(p.registry_len(), 0);
    assert!(!p.tracks(&String::from("UNKNOWN_TOKEN")));
}

#[test]
fn allow_listed_token_gets_entry_without_event() {
    let mut p = Pipeline::new(allow_list());
    let out = p.process(trade("TOKEN5", 3_000_000, "ts"));
    assert!(out.is_none());
    assert_eq!(p.registry_len(), 1);
    assert!(p.tracks(&String::from("TOKEN5")));
}

#[test]
fn malformed_alone_changes_nothing() {
    let mut p = Pipeline::new(allow_list());
    let out = p.process(Inbound::Malformed);
    assert!(out.is_none());
    assert_eq!(p.registry_len(), 0);
}

#[test]
fn malformed_then_valid_emits_single_event() {
    let mut p = Pipeline::new(allow_list());
    assert!(p.process(Inbound::Malformed).is_none());
    let mut events = 0;
    for i in 0..15i64 {
        if p.process(trade("TOKEN3", 1_000_000 + 1_000 * i, "ts")).is_some() {
            events += 1;
        }
    }
    assert_eq!(events, 1);
    assert_eq!(p.registry_len(), 1);
}

#[test]
fn instruments_do_not_share_windows() {
    let mut p = Pipeline::new(allow_list());
    for i in 0..14i64 {
        assert!(p.process(trade("TOKEN1", 1_000_000 + i, "ts")).is_none());
        assert!(p.process(trade("TOKEN2", 2_000_000 - i, "ts")).is_none());
    }
    // each instrument reaches its own threshold on its own fifteenth trade
    let up = p.process(trade("TOKEN1", 1_000_014, "ts")).expect("threshold met");
    let down = p.process(trade("TOKEN2", 1_999_985, "ts")).expect("threshold met");
    assert_eq!(up.rsi, 100_000_000);
    assert_eq!(down.rsi, 0);
    assert_eq!(p.registry_len(), 2);
}
