//! The virtual clock and the event-merge engine.

use mmatamm_interface::engine::Error;
use mmatamm_interface::engine::Market;
use mmatamm_interface::market::Event;
use mmatamm_interface::market::MarketTime;
use mmatamm_interface::store::PriceStore;

const MINUTE: i64 = 60_000_000;

fn assert_event(
    expected_event: Event,
    expected_time: i64,
    actual_event: Result<(i64, Event), Error>,
) {
    assert!(actual_event.is_ok_and(|(time, event)| time == expected_time && event == expected_event));
}

fn regular_market(events: Vec<(i64, Event)>, start: i64, cash: u64) -> Market {
    let mut market = Market::open(PriceStore::new(), events, start, cash);
    market.market_time = MarketTime::Regular;
    market
}

#[test]
fn test_ticks() {
    let mut market = regular_market(Vec::new(), 0, 0);

    assert!(market.next_event().unwrap().is_none());

    assert_event(Event::Tick, 0, market.next_event_or_tick(MINUTE));
    assert_eq!(market.time(), 0);

    assert_event(Event::Tick, MINUTE, market.next_event_or_tick(MINUTE));
    assert_eq!(market.time(), MINUTE);
}

#[test]
fn test_market_hours() {
    let mut market = regular_market(vec![(MINUTE, Event::RegularMarketEnd)], 0, 0);

    assert_event(Event::Tick, 0, market.next_event_or_tick(MINUTE));
    assert_eq!(MarketTime::Regular, market.session_phase());

    assert_event(
        Event::RegularMarketEnd,
        MINUTE,
        market.next_event_or_tick(MINUTE),
    );
    assert_eq!(MarketTime::PostMarket, market.session_phase());

    assert_event(Event::Tick, MINUTE, market.next_event_or_tick(MINUTE));
}

#[test]
#[should_panic]
fn test_invalid_market_hours() {
    let mut market = Market::open(
        PriceStore::new(),
        vec![(MINUTE, Event::RegularMarketEnd)],
        0,
        0,
    );
    market.market_time = MarketTime::PreMarket;

    market.next_event().unwrap();
}

#[test]
fn test_tick_event_tie_break() {
    // An external event exactly on a tick boundary wins over the tick.
    let mut market = regular_market(vec![(MINUTE, Event::RegularMarketEnd)], 0, 0);

    assert_event(Event::Tick, 0, market.next_event_or_tick(MINUTE));
    assert_event(
        Event::RegularMarketEnd,
        MINUTE,
        market.next_event_or_tick(MINUTE),
    );
    assert_eq!(MarketTime::PostMarket, market.session_phase());
}

#[test]
fn test_event_between_boundaries_wins() {
    // An event strictly inside a tick interval is delivered before the tick.
    let mut market = regular_market(vec![(MINUTE / 2, Event::RegularMarketEnd)], 0, 0);

    assert_event(Event::Tick, 0, market.next_event_or_tick(MINUTE));
    assert_event(
        Event::RegularMarketEnd,
        MINUTE / 2,
        market.next_event_or_tick(MINUTE),
    );
    assert_event(Event::Tick, MINUTE, market.next_event_or_tick(MINUTE));
}

#[test]
fn test_tick_spacing_from_aligned_start() {
    let mut market = regular_market(Vec::new(), 0, 0);
    let mut previous: Option<i64> = None;
    for step in 0..5 {
        let (time, event) = market.next_event_or_tick(MINUTE).unwrap();
        assert_eq!(event, Event::Tick);
        assert_eq!(time, step * MINUTE);
        if let Some(p) = previous {
            assert_eq!(time - p, MINUTE);
        }
        previous = Some(time);
    }
}

#[test]
fn test_tick_spacing_from_unaligned_start() {
    // The first tick lands on the first boundary at or after the start.
    let start = MINUTE + MINUTE / 2;
    let mut market = regular_market(Vec::new(), start, 0);
    assert_event(Event::Tick, 2 * MINUTE, market.next_event_or_tick(MINUTE));
    assert_event(Event::Tick, 3 * MINUTE, market.next_event_or_tick(MINUTE));
    assert_event(Event::Tick, 4 * MINUTE, market.next_event_or_tick(MINUTE));
}

#[test]
fn test_next_event_consumes_in_order() {
    let mut market = Market::open(
        PriceStore::new(),
        vec![
            (MINUTE, Event::PreMarketStart),
            (2 * MINUTE, Event::RegularMarketStart),
        ],
        0,
        0,
    );

    assert_eq!(
        market.next_event().unwrap(),
        Some((MINUTE, Event::PreMarketStart))
    );
    assert_eq!(market.session_phase(), MarketTime::PreMarket);
    assert_eq!(market.time(), MINUTE);

    assert_eq!(
        market.next_event().unwrap(),
        Some((2 * MINUTE, Event::RegularMarketStart))
    );
    assert_eq!(market.session_phase(), MarketTime::Regular);

    assert_eq!(market.next_event().unwrap(), None);
}

#[test]
fn test_stale_events_are_never_delivered() {
    // The feed yields events strictly after the clock: an event at or
    // before the start instant is unreachable.
    let mut market = Market::open(
        PriceStore::new(),
        vec![(MINUTE, Event::PreMarketStart)],
        MINUTE,
        0,
    );
    assert_eq!(market.next_event().unwrap(), None);
}

#[test]
fn test_invalid_tick_granularity_is_noop() {
    let mut market = regular_market(vec![(MINUTE, Event::RegularMarketEnd)], 0, 100);

    assert_eq!(market.next_event_or_tick(0), Err(Error::InvalidTickGranularity));
    assert_eq!(
        market.next_event_or_tick(-MINUTE),
        Err(Error::InvalidTickGranularity)
    );

    // Nothing moved: the clock, phase, feed and ledger are as at open.
    assert_eq!(market.time(), 0);
    assert_eq!(market.session_phase(), MarketTime::Regular);
    assert_eq!(market.cash(), 100);
    assert_event(Event::Tick, 0, market.next_event_or_tick(MINUTE));
}

#[test]
fn test_rejected_session_event_is_noop() {
    // An out-of-sequence session event fails the advancement and leaves
    // the clock, phase and feed exactly as they were.
    let mut market = regular_market(vec![(MINUTE, Event::PreMarketStart)], 0, 100);

    assert_event(Event::Tick, 0, market.next_event_or_tick(MINUTE));
    let before = market.time();

    let r = market.next_event_or_tick(MINUTE);
    assert!(matches!(r, Err(Error::ImpossibleEvent(_))));

    assert_eq!(market.time(), before);
    assert_eq!(market.session_phase(), MarketTime::Regular);
    assert_eq!(market.cash(), 100);

    // The event was not consumed: the same failure repeats.
    let r = market.next_event_or_tick(MINUTE);
    assert!(matches!(r, Err(Error::ImpossibleEvent(_))));
}

#[test]
fn test_tick_spacing_before_epoch() {
    // Boundaries are multiples of the duration also on the negative side
    // of the epoch: from -90 s the first minute boundary at or after is
    // -60 s.
    let start = -MINUTE - MINUTE / 2;
    let mut market = regular_market(Vec::new(), start, 0);
    assert_event(Event::Tick, -MINUTE, market.next_event_or_tick(MINUTE));
    assert_event(Event::Tick, 0, market.next_event_or_tick(MINUTE));
    assert_event(Event::Tick, MINUTE, market.next_event_or_tick(MINUTE));
}
