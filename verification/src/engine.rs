//! The market simulation engine.
//!
//! A `Market` composes the virtual clock, the session state machine, the
//! no-lookahead price oracle and the trading ledger into the single facade
//! a strategy drives. Advancement merges the externally sourced boundary
//! events with synthetic fixed-interval ticks into one monotonic timeline;
//! between advancements the strategy may query prices and submit trades.
//!
//! Every operation is all-or-nothing: on any failure the clock, session
//! phase, feed position and ledger are left exactly as they were.

use vstd::prelude::*;

use crate::clock::lemma_tick_boundary_props;
use crate::clock::lemma_tick_spacing;
use crate::clock::spec_tick_boundary;
use crate::clock::tick_boundary;
use crate::market::Event;
use crate::market::ImpossibleEvent;
use crate::market::MarketTime;
use crate::market::spec_transition;
use crate::series::drop_stale;
use crate::series::first_live_index;
use crate::series::lemma_drop_stale_head;
use crate::series::lemma_drop_stale_skip;
use crate::series::strictly_ascending;
use crate::store::PriceStore;
use crate::symbols::find_key;
use crate::symbols::lemma_find_absent;
use crate::symbols::lemma_find_at;
use crate::symbols::lemma_find_push;
use crate::symbols::lemma_find_update;
use crate::symbols::spec_find;
use crate::symbols::unique_keys;

verus! {

/// An error surfaced by the engine. Protocol errors (a session event out of
/// sequence, an unusable tick duration) are fatal to a run; a future query
/// is a caller bug; a missing price is missing external data; the trading
/// errors are well-formed but rejected requests.
#[derive(Debug, PartialEq)]
pub enum Error {
    /// A trade of the symbol was submitted at an instant outside trading
    /// hours.
    UntimelyTrade(String, i64),
    /// The store records no price for the symbol at or before the
    /// requested instant.
    UnknownPrice(String),
    /// The order's total price exceeds the cash on hand.
    InsufficientCash { quantity: u32, symbol: String, total_price: u128, cash: u64 },
    /// More shares were offered for sale than are owned.
    InsufficientShares { quantity: u32, symbol: String, owned: u32 },
    /// A feed row carries a label that names no session-boundary event.
    UnexpectedDatabaseSymbol { symbol: String, expected_kind: String },
    /// A session event arrived that cannot follow the current phase.
    ImpossibleEvent(ImpossibleEvent),
    /// Data strictly after the current virtual time was requested.
    FutureQuery { future_time: i64, current_time: i64 },
    /// The tick duration cannot truncate the current timeline: it is not
    /// positive, or the boundary it yields falls outside the representable
    /// instants.
    InvalidTickGranularity,
    /// A ledger amount would exceed its representable range.
    ArithmeticOverflow,
}

/// The session-boundary event a feed row's label names, if any.
pub open spec fn spec_event_of_label(label: Seq<char>) -> Option<Event> {
    if label == "system_hours_start"@ {
        Some(Event::PreMarketStart)
    } else if label == "regular_hours_start"@ {
        Some(Event::RegularMarketStart)
    } else if label == "regular_hours_end"@ {
        Some(Event::RegularMarketEnd)
    } else if label == "system_hours_end"@ {
        Some(Event::PostMarketEnd)
    } else {
        None
    }
}

/// Decodes a feed row's label into the session-boundary event it names.
pub fn parse_system_event(label: &str) -> (r: Result<Event, Error>)
    ensures
        match spec_event_of_label(label@) {
            Some(e) => r == Ok::<Event, Error>(e),
            None => r matches Err(e) && e matches Error::UnexpectedDatabaseSymbol {
                symbol,
                expected_kind,
            } && symbol@ == label@ && expected_kind@ == "system event"@,
        },
{
    let owned: String = label.to_owned();
    if owned == "system_hours_start".to_owned() {
        Ok(Event::PreMarketStart)
    } else if owned == "regular_hours_start".to_owned() {
        Ok(Event::RegularMarketStart)
    } else if owned == "regular_hours_end".to_owned() {
        Ok(Event::RegularMarketEnd)
    } else if owned == "system_hours_end".to_owned() {
        Ok(Event::PostMarketEnd)
    } else {
        Err(Error::UnexpectedDatabaseSymbol {
            symbol: owned,
            expected_kind: "system event".to_owned(),
        })
    }
}

/// The market simulation: virtual clock, session phase, boundary-event
/// feed, price store and ledger, advanced as one unit.
///
/// Cash and share counts are unsigned, so no operation can drive the
/// ledger negative; every trade validates before it mutates, and every
/// rejected operation leaves the whole state untouched.
pub struct Market {
    /// The injected historical price store.
    pub store: PriceStore,
    /// The externally sourced session-boundary events, in strictly
    /// ascending time order.
    pub events: Vec<(i64, Event)>,
    /// How many leading entries of `events` have been consumed.
    pub consumed: usize,
    /// The current virtual time, microseconds since the Unix epoch.
    pub time: i64,
    /// The earliest instant the next emission may carry. A tick emitted on
    /// boundary `b` raises this to `b + tick`, so the same boundary does
    /// not tick twice; a delivered event at `t` resets it to `t`.
    pub next_time: i64,
    /// The trading-session phase.
    pub market_time: MarketTime,
    /// Cash on hand, in price units.
    pub cash: u64,
    /// Shares owned, by symbol.
    pub holdings: Vec<(String, u32)>,
}

impl Market {
    /// The structural invariant: the price store and the feed are well
    /// formed, the feed cursor is in range, the clock never passes the
    /// next emission instant, and no symbol is held twice.
    pub open spec fn wf(self) -> bool {
        &&& self.store.wf()
        &&& strictly_ascending(self.events@)
        &&& self.consumed <= self.events@.len()
        &&& self.time <= self.next_time
        &&& unique_keys(self.holdings@)
    }

    /// The externally sourced events not yet consumed.
    pub open spec fn pending(self) -> Seq<(i64, Event)> {
        self.events@.skip(self.consumed as int)
    }

    /// The events that can still be delivered: pending and strictly after
    /// the clock.
    pub open spec fn live_feed(self) -> Seq<(i64, Event)> {
        drop_stale(self.pending(), self.time as int)
    }

    /// Shares owned of `sym`.
    pub open spec fn spec_shares_of(self, sym: Seq<char>) -> u32 {
        match spec_find(self.holdings@, sym) {
            None => 0u32,
            Some(q) => q,
        }
    }

    /// The ledger and the price store of `self` are those of `prev`.
    pub open spec fn ledger_unchanged(self, prev: Market) -> bool {
        &&& self.cash == prev.cash
        &&& self.holdings == prev.holdings
        &&& self.store == prev.store
    }

    /// The clock, session phase and feed position of `self` are those of
    /// `prev`.
    pub open spec fn clock_unchanged(self, prev: Market) -> bool {
        &&& self.time == prev.time
        &&& self.next_time == prev.next_time
        &&& self.market_time == prev.market_time
        &&& self.events == prev.events
        &&& self.consumed == prev.consumed
    }

    /// Opens a market over the given price store and boundary-event feed:
    /// the clock starts at `start_time`, the session phase at the
    /// `Unknown` sentinel, and the ledger with `initial_cash` and no
    /// holdings.
    pub fn open(store: PriceStore, events: Vec<(i64, Event)>, start_time: i64, initial_cash: u64) -> (m:
        Market)
        requires
            store.wf(),
            strictly_ascending(events@),
        ensures
            m.wf(),
            m.store == store,
            m.events == events,
            m.consumed == 0,
            m.time == start_time,
            m.next_time == start_time,
            m.market_time == MarketTime::Unknown,
            m.cash == initial_cash,
            m.holdings@ == Seq::<(String, u32)>::empty(),
    {
        Market {
            store,
            events,
            consumed: 0,
            time: start_time,
            next_time: start_time,
            market_time: MarketTime::Unknown,
            cash: initial_cash,
            holdings: Vec::new(),
        }
    }

    /// Consumes and returns the next deliverable externally sourced event
    /// (no ticks), applying it to the session state machine and advancing
    /// the clock to its instant; returns `Ok(None)` when the feed is
    /// exhausted. On a rejected session event nothing changes.
    pub fn next_event(&mut self) -> (r: Result<Option<(i64, Event)>, Error>)
        requires
            old(self).wf(),
        ensures
            final(self).wf(),
            final(self).time >= old(self).time,
            final(self).ledger_unchanged(*old(self)),
            final(self).events == old(self).events,
            ({
                let live = old(self).live_feed();
                if live.len() == 0 {
                    r == Ok::<Option<(i64, Event)>, Error>(None) && *final(self) == *old(self)
                } else {
                    let te = live[0];
                    match spec_transition(old(self).market_time, te.1) {
                        Some(p) => r == Ok::<Option<(i64, Event)>, Error>(Some(te)) && final(self).time == te.0 && final(self).next_time == te.0 && final(self).market_time
                            == p && final(self).live_feed() == live.skip(1),
                        None => r == Err::<Option<(i64, Event)>, Error>(Error::ImpossibleEvent(
                            ImpossibleEvent::MarketTimeSkip {
                                event: te.1,
                                market_time: old(self).market_time,
                            },
                        )) && *final(self) == *old(self),
                    }
                }
            }),
    {
        match first_live_index(&self.events, self.consumed, self.time) {
            None => Ok(None),
            Some(i) => {
                let t = self.events[i].0;
                let e = self.events[i].1;
                proof {
                    assert(old(self).live_feed() == old(self).events@.skip(i as int));
                    assert(old(self).live_feed()[0] == (t, e));
                    lemma_drop_stale_head(old(self).pending(), old(self).time as int);
                }
                let n: usize = self.events.len();
                match self.market_time.update(&e) {
                    Err(ie) => Err(Error::ImpossibleEvent(ie)),
                    Ok(()) => {
                        self.time = t;
                        self.next_time = t;
                        assert(i < n);
                        self.consumed = i + 1;
                        proof {
                            self.lemma_fresh_suffix(i + 1);
                            assert(self.live_feed() =~= old(self).live_feed().skip(1));
                        }
                        Ok(Some((t, e)))
                    },
                }
            },
        }
    }

    /// All pending events from index `at` on are strictly after the clock,
    /// so none of them is stale: the live feed is exactly that suffix.
    proof fn lemma_fresh_suffix(self, at: int)
        requires
            strictly_ascending(self.events@),
            self.consumed == at,
            0 <= at <= self.events@.len(),
            at < self.events@.len() ==> self.events@[at].0 > self.time,
        ensures
            self.live_feed() == self.events@.skip(at),
    {
        lemma_drop_stale_skip(self.pending(), self.time as int, 0);
        assert(self.pending().skip(0) =~= self.pending());
    }

    /// Whether `tick` can truncate the timeline at `next_time`: it is
    /// positive, and one whole tick past the boundary it yields is still a
    /// representable instant.
    pub open spec fn spec_tick_ok(next_time: int, tick: int) -> bool {
        tick > 0 && spec_tick_boundary(next_time, tick) + tick <= i64::MAX
    }

    /// Advances the timeline by one step: either the next deliverable
    /// external event, when it is due at or before the upcoming tick
    /// boundary (an event exactly on the boundary beats the tick), or else
    /// the synthetic tick on that boundary. The clock moves to the returned
    /// instant; a delivered event is applied to the session state machine.
    /// On any failure nothing changes.
    pub fn next_event_or_tick(&mut self, tick: i64) -> (r: Result<(i64, Event), Error>)
        requires
            old(self).wf(),
        ensures
            final(self).wf(),
            final(self).time >= old(self).time,
            final(self).ledger_unchanged(*old(self)),
            final(self).events == old(self).events,
            ({
                if !Market::spec_tick_ok(old(self).next_time as int, tick as int) {
                    r == Err::<(i64, Event), Error>(Error::InvalidTickGranularity) && *final(self)
                        == *old(self)
                } else {
                    let b = spec_tick_boundary(old(self).next_time as int, tick as int);
                    let live = old(self).live_feed();
                    if live.len() > 0 && live[0].0 <= b {
                        let te = live[0];
                        match spec_transition(old(self).market_time, te.1) {
                            Some(p) => r == Ok::<(i64, Event), Error>(te) && final(self).time
                                == te.0 && final(self).next_time == te.0 && final(self).market_time == p && final(self).live_feed() == live.skip(1),
                            None => r == Err::<(i64, Event), Error>(Error::ImpossibleEvent(
                                ImpossibleEvent::MarketTimeSkip {
                                    event: te.1,
                                    market_time: old(self).market_time,
                                },
                            )) && *final(self) == *old(self),
                        }
                    } else {
                        r == Ok::<(i64, Event), Error>((b as i64, Event::Tick)) && final(self).time
                            == b && final(self).next_time == b + tick && final(self).market_time
                            == old(self).market_time && final(self).consumed == old(self).consumed
                            && final(self).live_feed() == live
                    }
                }
            }),
    {
        if tick <= 0 {
            return Err(Error::InvalidTickGranularity);
        }
        let b = match tick_boundary(self.next_time, tick) {
            Some(b) => b,
            None => {
                return Err(Error::InvalidTickGranularity);
            },
        };
        let after_b = match b.checked_add(tick) {
            Some(nt) => nt,
            None => {
                return Err(Error::InvalidTickGranularity);
            },
        };
        proof {
            lemma_tick_boundary_props(self.next_time as int, tick as int);
        }
        let idx = first_live_index(&self.events, self.consumed, self.time);
        let due = match idx {
            Some(i) => {
                if self.events[i].0 <= b {
                    Some(i)
                } else {
                    None
                }
            },
            None => None,
        };
        match due {
            Some(i) => {
                let t = self.events[i].0;
                let e = self.events[i].1;
                proof {
                    assert(old(self).live_feed() == old(self).events@.skip(i as int));
                    assert(old(self).live_feed()[0] == (t, e));
                    lemma_drop_stale_head(old(self).pending(), old(self).time as int);
                }
                let n: usize = self.events.len();
                match self.market_time.update(&e) {
                    Err(ie) => Err(Error::ImpossibleEvent(ie)),
                    Ok(()) => {
                        self.time = t;
                        self.next_time = t;
                        assert(i < n);
                        self.consumed = i + 1;
                        proof {
                            self.lemma_fresh_suffix(i + 1);
                            assert(self.live_feed() =~= old(self).live_feed().skip(1));
                        }
                        Ok((t, e))
                    },
                }
            },
            None => {
                self.time = b;
                self.next_time = after_b;
                proof {
                    let pending = old(self).pending();
                    let k: int = match idx {
                        Some(i) => i - old(self).consumed,
                        None => pending.len() as int,
                    };
                    lemma_drop_stale_skip(pending, b as int, k);
                    assert(self.pending() == pending);
                    assert(self.live_feed() =~= old(self).live_feed());
                }
                Ok((b, Event::Tick))
            },
        }
    }

    /// Resolves the price of `symbol` at instant `time`. Defined only for
    /// instants at or before the clock: a request past the clock fails with
    /// `FutureQuery` before the store is ever consulted, whatever the store
    /// holds — the no-lookahead guarantee. A request the store cannot
    /// answer fails with `UnknownPrice`: the engine never interpolates and
    /// never substitutes a stale value of its own.
    pub fn price_at(&self, symbol: &str, time: i64) -> (r: Result<u64, Error>)
        ensures
            time > self.time ==> r == Err::<u64, Error>(Error::FutureQuery {
                future_time: time,
                current_time: self.time,
            }),
            time <= self.time ==> match self.store.spec_lookup(symbol@, time as int) {
                Some(p) => r == Ok::<u64, Error>(p),
                None => r matches Err(e) && e matches Error::UnknownPrice(s) && s@ == symbol@,
            },
    {
        if time > self.time {
            return Err(Error::FutureQuery { future_time: time, current_time: self.time });
        }
        match self.store.lookup(symbol, time) {
            Some(p) => Ok(p),
            None => Err(Error::UnknownPrice(symbol.to_owned())),
        }
    }

    /// The price of `symbol` now: its price at the current virtual time.
    pub fn current_price(&self, symbol: &str) -> (r: Result<u64, Error>)
        ensures
            match self.store.spec_lookup(symbol@, self.time as int) {
                Some(p) => r == Ok::<u64, Error>(p),
                None => r matches Err(e) && e matches Error::UnknownPrice(s) && s@ == symbol@,
            },
    {
        self.price_at(symbol, self.time)
    }

    /// Buys `quantity` shares of `symbol` at the current price. The trade
    /// is rejected outside trading hours, on a missing price, and when the
    /// total exceeds the cash on hand; validation strictly precedes
    /// mutation, so a rejected trade changes nothing. On success the total
    /// leaves the cash and the shares join the holdings, atomically.
    pub fn buy_at_market(&mut self, symbol: &str, quantity: u32) -> (r: Result<(), Error>)
        requires
            old(self).wf(),
        ensures
            final(self).wf(),
            final(self).clock_unchanged(*old(self)),
            final(self).store == old(self).store,
            !old(self).market_time.spec_is_open() ==> (r matches Err(e) && e
                matches Error::UntimelyTrade(s, t) && s@ == symbol@ && t == old(self).time)
                && *final(self) == *old(self),
            old(self).market_time.spec_is_open() ==> match old(self).store.spec_lookup(
                symbol@,
                old(self).time as int,
            ) {
                None => (r matches Err(e) && e matches Error::UnknownPrice(s) && s@ == symbol@)
                    && *final(self) == *old(self),
                Some(p) => {
                    let total = p * quantity;
                    if total > old(self).cash {
                        (r matches Err(e) && e matches Error::InsufficientCash {
                            quantity: q,
                            symbol: s,
                            total_price: tp,
                            cash: c,
                        } && q == quantity && s@ == symbol@ && tp == total && c == old(self).cash)
                            && *final(self) == *old(self)
                    } else if old(self).spec_shares_of(symbol@) + quantity > u32::MAX {
                        r == Err::<(), Error>(Error::ArithmeticOverflow) && *final(self) == *old(
                            self,
                        )
                    } else {
                        r == Ok::<(), Error>(()) && final(self).cash == old(self).cash - total
                            && final(self).spec_shares_of(symbol@) == old(self).spec_shares_of(
                            symbol@,
                        ) + quantity && (forall|s: Seq<char>|
                            s != symbol@ ==> final(self).spec_shares_of(s) == old(
                                self,
                            ).spec_shares_of(s)) && (forall|s: Seq<char>|
                            #[trigger] spec_find(final(self).holdings@, s) is Some <==> spec_find(
                                old(self).holdings@,
                                s,
                            ) is Some || s == symbol@)
                    }
                },
            },
    {
        if !self.market_time.is_open() {
            return Err(Error::UntimelyTrade(symbol.to_owned(), self.time));
        }
        let price = match self.current_price(symbol) {
            Ok(p) => p,
            Err(e) => {
                return Err(e);
            },
        };
        proof {
            vstd::arithmetic::mul::lemma_mul_upper_bound(
                price as int,
                u64::MAX as int,
                quantity as int,
                u32::MAX as int,
            );
        }
        let total: u128 = (price as u128) * (quantity as u128);
        if total > (self.cash as u128) {
            return Err(Error::InsufficientCash {
                quantity,
                symbol: symbol.to_owned(),
                total_price: total,
                cash: self.cash,
            });
        }
        match find_key(&self.holdings, symbol) {
            Some(i) => {
                proof {
                    lemma_find_at(self.holdings@, symbol@, i as int);
                }
                let owned = self.holdings[i].1;
                if quantity > u32::MAX - owned {
                    return Err(Error::ArithmeticOverflow);
                }
                self.cash = self.cash - (total as u64);
                let entry = &mut self.holdings[i];
                entry.1 = owned + quantity;
                proof {
                    lemma_find_update(old(self).holdings@, i as int, (owned + quantity) as u32);
                    assert(self.holdings@ =~= old(self).holdings@.update(
                        i as int,
                        (old(self).holdings@[i as int].0, (owned + quantity) as u32),
                    ));
                }
                Ok(())
            },
            None => {
                proof {
                    lemma_find_absent(self.holdings@, symbol@);
                }
                self.cash = self.cash - (total as u64);
                let key: String = symbol.to_owned();
                self.holdings.push((key, quantity));
                proof {
                    lemma_find_push(old(self).holdings@, key, quantity);
                }
                Ok(())
            },
        }
    }

    /// Sells `quantity` shares of `symbol` at the current price. The trade
    /// is rejected outside trading hours, when fewer shares are owned than
    /// offered, and on a missing price; validation strictly precedes
    /// mutation, so a rejected trade changes nothing. On success the total
    /// joins the cash and the shares leave the holdings, atomically.
    pub fn sell_at_market(&mut self, symbol: &str, quantity: u32) -> (r: Result<(), Error>)
        requires
            old(self).wf(),
        ensures
            final(self).wf(),
            final(self).clock_unchanged(*old(self)),
            final(self).store == old(self).store,
            !old(self).market_time.spec_is_open() ==> (r matches Err(e) && e
                matches Error::UntimelyTrade(s, t) && s@ == symbol@ && t == old(self).time)
                && *final(self) == *old(self),
            old(self).market_time.spec_is_open() ==> {
                let owned = old(self).spec_shares_of(symbol@);
                if quantity > owned {
                    (r matches Err(e) && e matches Error::InsufficientShares {
                        quantity: q,
                        symbol: s,
                        owned: o,
                    } && q == quantity && s@ == symbol@ && o == owned) && *final(self) == *old(self)
                } else {
                    match old(self).store.spec_lookup(symbol@, old(self).time as int) {
                        None => (r matches Err(e) && e matches Error::UnknownPrice(s) && s@
                            == symbol@) && *final(self) == *old(self),
                        Some(p) => {
                            let total = p * quantity;
                            if old(self).cash + total > u64::MAX {
                                r == Err::<(), Error>(Error::ArithmeticOverflow) && *final(self)
                                    == *old(self)
                            } else {
                                r == Ok::<(), Error>(()) && final(self).cash == old(self).cash
                                    + total && final(self).spec_shares_of(symbol@) == owned
                                    - quantity && (forall|s: Seq<char>|
                                    s != symbol@ ==> final(self).spec_shares_of(s) == old(
                                        self,
                                    ).spec_shares_of(s)) && (forall|s: Seq<char>|
                                    #[trigger] spec_find(final(self).holdings@, s) is Some
                                        <==> spec_find(old(self).holdings@, s) is Some)
                            }
                        },
                    }
                }
            },
    {
        if !self.market_time.is_open() {
            return Err(Error::UntimelyTrade(symbol.to_owned(), self.time));
        }
        let idx = find_key(&self.holdings, symbol);
        let owned: u32 = match idx {
            Some(i) => {
                proof {
                    lemma_find_at(self.holdings@, symbol@, i as int);
                }
                self.holdings[i].1
            },
            None => {
                proof {
                    lemma_find_absent(self.holdings@, symbol@);
                }
                0
            },
        };
        if quantity > owned {
            return Err(Error::InsufficientShares {
                quantity,
                symbol: symbol.to_owned(),
                owned,
            });
        }
        let price = match self.current_price(symbol) {
            Ok(p) => p,
            Err(e) => {
                return Err(e);
            },
        };
        proof {
            vstd::arithmetic::mul::lemma_mul_upper_bound(
                price as int,
                u64::MAX as int,
                quantity as int,
                u32::MAX as int,
            );
        }
        let total: u128 = (price as u128) * (quantity as u128);
        if total > ((u64::MAX - self.cash) as u128) {
            return Err(Error::ArithmeticOverflow);
        }
        self.cash = self.cash + (total as u64);
        match idx {
            Some(i) => {
                let entry = &mut self.holdings[i];
                entry.1 = owned - quantity;
                proof {
                    lemma_find_update(old(self).holdings@, i as int, (owned - quantity) as u32);
                    assert(self.holdings@ =~= old(self).holdings@.update(
                        i as int,
                        (old(self).holdings@[i as int].0, (owned - quantity) as u32),
                    ));
                }
                Ok(())
            },
            None => {
                Ok(())
            },
        }
    }

    /// Index `i` is the first obstacle the net-worth sum meets: every
    /// earlier holding is priced and keeps the running total representable,
    /// and at `i` either the price is missing (its symbol names the error)
    /// or the running total leaves the representable range.
    pub open spec fn spec_net_worth_obstacle(self, r: Result<u128, Error>, i: int) -> bool {
        let h = self.holdings@;
        let t = self.time as int;
        &&& 0 <= i < h.len()
        &&& forall|j: int|
            0 <= j < i ==> #[trigger] self.store.spec_lookup(h[j].0@, t) is Some
        &&& forall|j: int|
            0 <= j < i ==> self.cash + spec_holdings_value(#[trigger] h.take(j + 1), self.store, t)
                <= u128::MAX
        &&& if self.store.spec_lookup(h[i].0@, t) is None {
            r matches Err(e) && e matches Error::UnknownPrice(s) && s@ == h[i].0@
        } else {
            self.cash + spec_holdings_value(h.take(i + 1), self.store, t) > u128::MAX && r
                == Err::<u128, Error>(Error::ArithmeticOverflow)
        }
    }

    /// The worth of the ledger now: the cash plus, for each held symbol in
    /// turn, its share count times its current price. Each symbol is
    /// visited exactly once (no symbol is held twice); the first missing
    /// price fails the call with `UnknownPrice` of that symbol.
    pub fn net_worth(&self) -> (r: Result<u128, Error>)
        ensures
            all_priced(self.holdings@, self.store, self.time as int) && self.cash
                + spec_holdings_value(self.holdings@, self.store, self.time as int) <= u128::MAX
                ==> r == Ok::<u128, Error>(
                (self.cash + spec_holdings_value(
                    self.holdings@,
                    self.store,
                    self.time as int,
                )) as u128,
            ),
            !(all_priced(self.holdings@, self.store, self.time as int) && self.cash
                + spec_holdings_value(self.holdings@, self.store, self.time as int) <= u128::MAX)
                ==> exists|i: int| self.spec_net_worth_obstacle(r, i),
    {
        let ghost h = self.holdings@;
        let ghost t = self.time as int;
        let mut acc: u128 = self.cash as u128;
        let n: usize = self.holdings.len();
        let mut i: usize = 0;
        while i < n
            invariant
                n == self.holdings@.len(),
                i <= n,
                h == self.holdings@,
                t == self.time as int,
                forall|j: int| 0 <= j < i ==> #[trigger] self.store.spec_lookup(h[j].0@, t) is Some,
                forall|j: int|
                    0 <= j < i ==> self.cash + spec_holdings_value(#[trigger] h.take(j + 1), self.store, t)
                        <= u128::MAX,
                acc == self.cash + spec_holdings_value(h.take(i as int), self.store, t),
            decreases n - i,
        {
            let entry = &self.holdings[i];
            match self.store.lookup(entry.0.as_str(), self.time) {
                None => {
                    let e = Error::UnknownPrice(entry.0.clone());
                    proof {
                        assert(self.spec_net_worth_obstacle(Err::<u128, Error>(e), i as int));
                    }
                    return Err(e);
                },
                Some(p) => {
                    proof {
                        vstd::arithmetic::mul::lemma_mul_upper_bound(
                            p as int,
                            u64::MAX as int,
                            entry.1 as int,
                            u32::MAX as int,
                        );
                        assert(h.take(i + 1).drop_last() =~= h.take(i as int));
                        assert(h.take(i + 1)[i as int] == h[i as int]);
                    }
                    let term: u128 = (p as u128) * (entry.1 as u128);
                    match acc.checked_add(term) {
                        Some(a) => {
                            acc = a;
                        },
                        None => {
                            proof {
                                lemma_value_take_le(h, self.store, t, i + 1);
                                assert(h.take(h.len() as int) =~= h);
                                assert(self.spec_net_worth_obstacle(
                                    Err::<u128, Error>(Error::ArithmeticOverflow),
                                    i as int,
                                ));
                            }
                            return Err(Error::ArithmeticOverflow);
                        },
                    }
                },
            }
            i = i + 1;
        }
        proof {
            assert(h.take(n as int) =~= h);
        }
        Ok(acc)
    }

    /// The current virtual time.
    pub fn time(&self) -> (r: i64)
        ensures
            r == self.time,
    {
        self.time
    }

    /// The current trading-session phase.
    pub fn session_phase(&self) -> (r: MarketTime)
        ensures
            r == self.market_time,
    {
        self.market_time
    }

    /// The cash on hand.
    pub fn cash(&self) -> (r: u64)
        ensures
            r == self.cash,
    {
        self.cash
    }

    /// The number of shares of `symbol` owned.
    pub fn shares_of(&self, symbol: &str) -> (r: u32)
        ensures
            r == self.spec_shares_of(symbol@),
    {
        match find_key(&self.holdings, symbol) {
            Some(i) => {
                proof {
                    lemma_find_at(self.holdings@, symbol@, i as int);
                }
                self.holdings[i].1
            },
            None => {
                proof {
                    lemma_find_absent(self.holdings@, symbol@);
                }
                0
            },
        }
    }

    /// Every holding, as (symbol, share count) pairs; each held symbol
    /// appears exactly once.
    pub fn holdings(&self) -> (r: &Vec<(String, u32)>)
        ensures
            r == &self.holdings,
    {
        &self.holdings
    }
}

/// The summed market value of the holdings at instant `t` against `store`:
/// share count times price for each entry, an unpriced entry contributing
/// nothing (under `all_priced` there is none).
pub open spec fn spec_holdings_value(h: Seq<(String, u32)>, store: PriceStore, t: int) -> int
    decreases h.len(),
{
    if h.len() == 0 {
        0
    } else {
        spec_holdings_value(h.drop_last(), store, t) + (match store.spec_lookup(
            h[h.len() - 1].0@,
            t,
        ) {
            Some(p) => p * h[h.len() - 1].1,
            None => 0,
        })
    }
}

/// Every held symbol has a price at instant `t`.
pub open spec fn all_priced(h: Seq<(String, u32)>, store: PriceStore, t: int) -> bool {
    forall|i: int| 0 <= i < h.len() ==> #[trigger] store.spec_lookup(h[i].0@, t) is Some
}

/// The holdings value only grows as entries join the sum: every term is a
/// product of non-negative numbers.
pub proof fn lemma_value_take_le(h: Seq<(String, u32)>, store: PriceStore, t: int, k: int)
    requires
        0 <= k <= h.len(),
    ensures
        spec_holdings_value(h.take(k), store, t) <= spec_holdings_value(h, store, t),
    decreases h.len() - k,
{
    if k == h.len() {
        assert(h.take(k) =~= h);
    } else {
        lemma_value_take_le(h, store, t, k + 1);
        assert(h.take(k + 1).drop_last() =~= h.take(k));
        assert(h.take(k + 1)[k] == h[k]);
        match store.spec_lookup(h[k].0@, t) {
            Some(p) => {
                vstd::arithmetic::mul::lemma_mul_nonnegative(p as int, h[k].1 as int);
            },
            None => {},
        }
    }
}

/// A ledger with no holdings is worth its cash alone: the summed holdings
/// value of an empty ledger is zero, so `net_worth` returns exactly the
/// cash on hand.
pub proof fn lemma_net_worth_of_empty(m: Market)
    requires
        m.holdings@.len() == 0,
    ensures
        m.cash + spec_holdings_value(m.holdings@, m.store, m.time as int) == m.cash,
{
}

/// The regular beat of the clock: with no deliverable external event, the
/// contract of `next_event_or_tick` returns the synthetic tick on
/// `spec_tick_boundary(next_time, tick)` — the first boundary at or after
/// the next emission instant, so the very first tick lands on the first
/// boundary at or after the start time — and leaves the feed as it was
/// with `next_time` one whole tick past that boundary. By the last
/// equation, the following call then returns the boundary exactly `tick`
/// later: repeated advancement yields strictly increasing instants spaced
/// exactly `tick` apart.
pub proof fn lemma_regular_ticking(m: Market, tick: i64)
    requires
        m.wf(),
        m.live_feed().len() == 0,
        Market::spec_tick_ok(m.next_time as int, tick as int),
    ensures
        m.next_time <= spec_tick_boundary(m.next_time as int, tick as int) < m.next_time + tick,
        spec_tick_boundary(m.next_time as int, tick as int) % (tick as int) == 0,
        spec_tick_boundary(
            spec_tick_boundary(m.next_time as int, tick as int) + tick,
            tick as int,
        ) == spec_tick_boundary(m.next_time as int, tick as int) + tick,
{
    lemma_tick_boundary_props(m.next_time as int, tick as int);
    lemma_tick_spacing(m.next_time as int, tick as int);
}

} // verus!
