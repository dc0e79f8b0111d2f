//! The trading-session state machine.
//!
//! A trading day moves through a fixed cycle of phases:
//! `NotTrading -> PreMarket -> Regular -> PostMarket -> NotTrading`, each
//! boundary crossed by the corresponding session event. Before the first
//! boundary event arrives, the phase is the `Unknown` sentinel, from which
//! any boundary event is accepted and sets the phase it leads to. An event
//! that does not match the single legal transition out of the current phase
//! is rejected, and the phase is left unchanged.

use vstd::prelude::*;

verus! {

/// One entry of the simulation's event stream: either a synthetic clock tick
/// or an externally sourced session-boundary event.
#[derive(Clone, Copy, Debug, PartialEq, Eq, Structural)]
pub enum Event {
    Tick,
    PreMarketStart,
    RegularMarketStart,
    RegularMarketEnd,
    PostMarketEnd,
}

/// The phase of the trading session.
#[derive(Clone, Copy, Debug, PartialEq, Eq, Structural)]
pub enum MarketTime {
    NotTrading,
    PreMarket,
    Regular,
    PostMarket,
    Unknown,
}

/// A session event arrived that cannot follow the current phase: the clock
/// and the feed have desynchronized. This is fatal to a simulation run.
#[derive(Clone, Copy, Debug, PartialEq, Eq, Structural)]
pub enum ImpossibleEvent {
    MarketTimeSkip { event: Event, market_time: MarketTime },
}

/// The transition table of the session state machine: the phase that `event`
/// leads to from `phase`, or `None` when the event cannot follow the phase.
/// `Tick` is not a boundary and never changes the phase; from `Unknown` any
/// boundary event is accepted and sets the phase it leads to.
pub open spec fn spec_transition(phase: MarketTime, event: Event) -> Option<MarketTime> {
    match event {
        Event::Tick => Some(phase),
        Event::PreMarketStart => if phase == MarketTime::NotTrading || phase == MarketTime::Unknown {
            Some(MarketTime::PreMarket)
        } else {
            None
        },
        Event::RegularMarketStart => if phase == MarketTime::PreMarket || phase == MarketTime::Unknown {
            Some(MarketTime::Regular)
        } else {
            None
        },
        Event::RegularMarketEnd => if phase == MarketTime::Regular || phase == MarketTime::Unknown {
            Some(MarketTime::PostMarket)
        } else {
            None
        },
        Event::PostMarketEnd => if phase == MarketTime::PostMarket || phase == MarketTime::Unknown {
            Some(MarketTime::NotTrading)
        } else {
            None
        },
    }
}

impl MarketTime {
    /// Whether trading is allowed in this phase.
    pub open spec fn spec_is_open(self) -> bool {
        self == MarketTime::PreMarket || self == MarketTime::Regular
            || self == MarketTime::PostMarket
    }

    /// Applies one event to the session phase. On a legal transition the
    /// phase advances; on an illegal one the call fails and the phase is
    /// left exactly as it was.
    pub fn update(&mut self, event: &Event) -> (r: Result<(), ImpossibleEvent>)
        ensures
            match spec_transition(*old(self), *event) {
                Some(next) => r == Ok::<(), ImpossibleEvent>(()) && *final(self) == next,
                None => r == Err::<(), ImpossibleEvent>(ImpossibleEvent::MarketTimeSkip {
                    event: *event,
                    market_time: *old(self),
                }) && *final(self) == *old(self),
            },
    {
        let next = match event {
            Event::Tick => Some(*self),
            Event::PreMarketStart => match *self {
                MarketTime::NotTrading | MarketTime::Unknown => Some(MarketTime::PreMarket),
                _ => None,
            },
            Event::RegularMarketStart => match *self {
                MarketTime::PreMarket | MarketTime::Unknown => Some(MarketTime::Regular),
                _ => None,
            },
            Event::RegularMarketEnd => match *self {
                MarketTime::Regular | MarketTime::Unknown => Some(MarketTime::PostMarket),
                _ => None,
            },
            Event::PostMarketEnd => match *self {
                MarketTime::PostMarket | MarketTime::Unknown => Some(MarketTime::NotTrading),
                _ => None,
            },
        };
        match next {
            Some(phase) => {
                *self = phase;
                Ok(())
            },
            None => Err(ImpossibleEvent::MarketTimeSkip { event: *event, market_time: *self }),
        }
    }

    /// Determines if the market is currently open: pre-market, regular, or
    /// post-market hours.
    pub fn is_open(&self) -> (r: bool)
        ensures
            r == self.spec_is_open(),
    {
        match self {
            MarketTime::PreMarket | MarketTime::Regular | MarketTime::PostMarket => true,
            _ => false,
        }
    }
}

} // verus!
