//! The session state machine, feed-label decoding, and `add`.

use mmatamm_interface::engine::parse_system_event;
use mmatamm_interface::engine::Error;
use mmatamm_interface::market::Event;
use mmatamm_interface::market::ImpossibleEvent;
use mmatamm_interface::market::MarketTime;

#[test]
fn test_add() {
    assert_eq!(mmatamm_interface::add(2, 2), 4);
}

#[test]
fn test_legal_transition_cycle() {
    let mut phase = MarketTime::NotTrading;
    assert!(phase.update(&Event::PreMarketStart).is_ok());
    assert_eq!(phase, MarketTime::PreMarket);
    assert!(phase.update(&Event::RegularMarketStart).is_ok());
    assert_eq!(phase, MarketTime::Regular);
    assert!(phase.update(&Event::RegularMarketEnd).is_ok());
    assert_eq!(phase, MarketTime::PostMarket);
    assert!(phase.update(&Event::PostMarketEnd).is_ok());
    assert_eq!(phase, MarketTime::NotTrading);
}

#[test]
fn test_tick_never_changes_phase() {
    let phases = [
        MarketTime::NotTrading,
        MarketTime::PreMarket,
        MarketTime::Regular,
        MarketTime::PostMarket,
        MarketTime::Unknown,
    ];
    for p in phases {
        let mut phase = p;
        assert!(phase.update(&Event::Tick).is_ok());
        assert_eq!(phase, p);
    }
}

#[test]
fn test_any_boundary_event_leaves_unknown() {
    let cases = [
        (Event::PreMarketStart, MarketTime::PreMarket),
        (Event::RegularMarketStart, MarketTime::Regular),
        (Event::RegularMarketEnd, MarketTime::PostMarket),
        (Event::PostMarketEnd, MarketTime::NotTrading),
    ];
    for (event, expected) in cases {
        let mut phase = MarketTime::Unknown;
        assert!(phase.update(&event).is_ok());
        assert_eq!(phase, expected);
    }
}

#[test]
fn test_illegal_transition_fails_and_is_noop() {
    let mut phase = MarketTime::Regular;
    let r = phase.update(&Event::PreMarketStart);
    assert_eq!(
        r,
        Err(ImpossibleEvent::MarketTimeSkip {
            event: Event::PreMarketStart,
            market_time: MarketTime::Regular,
        })
    );
    assert_eq!(phase, MarketTime::Regular);

    let mut phase = MarketTime::NotTrading;
    let r = phase.update(&Event::RegularMarketEnd);
    assert_eq!(
        r,
        Err(ImpossibleEvent::MarketTimeSkip {
            event: Event::RegularMarketEnd,
            market_time: MarketTime::NotTrading,
        })
    );
    assert_eq!(phase, MarketTime::NotTrading);

    let mut phase = MarketTime::PostMarket;
    assert!(phase.update(&Event::RegularMarketStart).is_err());
    assert_eq!(phase, MarketTime::PostMarket);
}

#[test]
fn test_is_open() {
    assert!(!MarketTime::NotTrading.is_open());
    assert!(MarketTime::PreMarket.is_open());
    assert!(MarketTime::Regular.is_open());
    assert!(MarketTime::PostMarket.is_open());
    assert!(!MarketTime::Unknown.is_open());
}

#[test]
fn test_parse_system_event_labels() {
    assert_eq!(
        parse_system_event("system_hours_start"),
        Ok(Event::PreMarketStart)
    );
    assert_eq!(
        parse_system_event("regular_hours_start"),
        Ok(Event::RegularMarketStart)
    );
    assert_eq!(
        parse_system_event("regular_hours_end"),
        Ok(Event::RegularMarketEnd)
    );
    assert_eq!(
        parse_system_event("system_hours_end"),
        Ok(Event::PostMarketEnd)
    );
}

#[test]
fn test_parse_system_event_unknown_label() {
    match parse_system_event("lunch_break") {
        Err(Error::UnexpectedDatabaseSymbol {
            symbol,
            expected_kind,
        }) => {
            assert_eq!(symbol, "lunch_break");
            assert_eq!(expected_kind, "system event");
        }
        other => panic!("expected UnexpectedDatabaseSymbol, got {:?}", other),
    }
}
