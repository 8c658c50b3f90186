//! Trading sessions and the decision logic of the Asia-range breakout
//! strategy.
//!
//! The strategy records the high/low range of the Asia session
//! (00:00-08:00 UTC) and, during the London session, signals a buy when the
//! price breaks above that range and a sell when it breaks below it; it
//! holds otherwise.
use vstd::prelude::*;

verus! {

/// The trading session a moment falls in.
#[derive(Clone, Copy, PartialEq, Eq, Structural, Debug)]
pub enum Session {
    Asia,
    London,
    NewYork,
    Off,
}

/// What a strategy asks for on a tick.
#[derive(Clone, Copy, PartialEq, Eq, Structural, Debug)]
pub enum Signal {
    Buy,
    Sell,
    Hold,
}

/// Seconds into the UTC day of a nanosecond timestamp: whole seconds since
/// 1970, counted down to the second before (so 1969-12-31 23:59:59 is
/// second 86399 of its day).
pub open spec fn seconds_of_day(timestamp: int) -> int {
    (timestamp / 1_000_000_000) % 86_400
}

/// The session of a second of the day: Asia before 08:00, London before
/// 17:00, New York before 22:00, and off after.
pub open spec fn session_at(secs: int) -> Session {
    if secs < 8 * 3600 {
        Session::Asia
    } else if secs < 17 * 3600 {
        Session::London
    } else if 13 * 3600 <= secs < 22 * 3600 {
        Session::NewYork
    } else {
        Session::Off
    }
}

/// The session of the nanosecond timestamp `timestamp`.
pub fn detect_session(timestamp: i64) -> (r: Session)
    ensures
        r == session_at(seconds_of_day(timestamp as int)),
        0 <= seconds_of_day(timestamp as int) < 86_400,
{
    let whole_seconds = timestamp.checked_div_euclid(1_000_000_000).unwrap();
    let secs = whole_seconds.checked_rem_euclid(86400).unwrap();
    if secs < 8 * 3600 {
        Session::Asia
    } else if secs < 17 * 3600 {
        Session::London
    } else if secs >= 13 * 3600 && secs < 22 * 3600 {
        Session::NewYork
    } else {
        Session::Off
    }
}

/// The sessions of the UTC day, second by second: Asia from 00:00 to 08:00,
/// London from 08:00 to 17:00, New York from 17:00 to 22:00, and off from
/// 22:00 to midnight, for every timestamp, before 1970 too.
pub proof fn lemma_session_hours(timestamp: i64)
    ensures
        ({
            let secs = (timestamp as int / 1_000_000_000) % 86_400;
            &&& 0 <= secs < 86_400
            &&& (session_at(seconds_of_day(timestamp as int)) == Session::Asia) == (0 <= secs < 28_800)
            &&& (session_at(seconds_of_day(timestamp as int)) == Session::London) == (28_800 <= secs < 61_200)
            &&& (session_at(seconds_of_day(timestamp as int)) == Session::NewYork) == (61_200 <= secs < 79_200)
            &&& (session_at(seconds_of_day(timestamp as int)) == Session::Off) == (79_200 <= secs < 86_400)
        }),
{
}

/// Where the tick's price stands against the recorded Asia range.
#[derive(Clone, Copy, PartialEq, Eq, Structural, Debug)]
pub enum PricePosition {
    AboveHigh,
    BelowLow,
    Inside,
}

/// What to do with the recorded Asia range on a tick.
#[derive(Clone, Copy, PartialEq, Eq, Structural, Debug)]
pub enum RangeUpdate {
    /// Leave the range as it is.
    Keep,
    /// Widen the range to include the tick's price.
    Extend,
    /// A new Asia session begins: forget the range, then include the price.
    Restart,
}

/// The outcome of a tick: the signal, and what becomes of the range.
#[derive(Clone, Copy, PartialEq, Eq, Structural, Debug)]
pub struct BreakoutDecision {
    pub signal: Signal,
    pub range: RangeUpdate,
}

/// The state of the breakout strategy apart from the range's prices: the
/// session of the previous tick, and whether an Asia tick has been recorded
/// since the range was last reset.
pub struct BreakoutStrategy {
    last_session: Session,
    range_set: bool,
}

/// What a breakout strategy holds.
pub struct BreakoutView {
    pub last_session: Session,
    pub range_set: bool,
}

impl View for BreakoutStrategy {
    type V = BreakoutView;

    closed spec fn view(&self) -> BreakoutView {
        BreakoutView { last_session: self.last_session, range_set: self.range_set }
    }
}

/// The decision of the strategy in state `v` on a tick at `timestamp`
/// whose price stands at `position` against the range: an Asia tick
/// restarts the range when the previous tick was not in Asia and widens it
/// when it was; during London, once the range is set, a price above it is a
/// buy and a price below it a sell; everything else holds.
pub open spec fn breakout_decision(v: BreakoutView, timestamp: i64, position: PricePosition) -> BreakoutDecision {
    let session = session_at(seconds_of_day(timestamp as int));
    let range = if session == Session::Asia {
        if v.last_session != Session::Asia { RangeUpdate::Restart } else { RangeUpdate::Extend }
    } else {
        RangeUpdate::Keep
    };
    let signal = if session == Session::London && v.range_set {
        match position {
            PricePosition::AboveHigh => Signal::Buy,
            PricePosition::BelowLow => Signal::Sell,
            PricePosition::Inside => Signal::Hold,
        }
    } else {
        Signal::Hold
    };
    BreakoutDecision { signal, range }
}

/// The state after the tick: the session is remembered and an Asia tick
/// sets the range.
pub open spec fn breakout_next(v: BreakoutView, timestamp: i64) -> BreakoutView {
    let session = session_at(seconds_of_day(timestamp as int));
    BreakoutView { last_session: session, range_set: if session == Session::Asia { true } else { v.range_set } }
}

/// The strategy trades only on a London breakout of a recorded Asia range,
/// buying above it and selling below it, and restarts the range exactly on a
/// tick that enters the Asia session.
pub proof fn lemma_breakout_only_in_london(v: BreakoutView, timestamp: i64, position: PricePosition)
    ensures
        breakout_decision(v, timestamp, position).signal != Signal::Hold ==> {
            &&& session_at(seconds_of_day(timestamp as int)) == Session::London
            &&& v.range_set
            &&& position != PricePosition::Inside
        },
        breakout_decision(v, timestamp, position).signal == Signal::Buy ==> position == PricePosition::AboveHigh,
        breakout_decision(v, timestamp, position).signal == Signal::Sell ==> position == PricePosition::BelowLow,
        (breakout_decision(v, timestamp, position).range == RangeUpdate::Restart) == (
            session_at(seconds_of_day(timestamp as int)) == Session::Asia && v.last_session != Session::Asia),
{
}

/// On every tick, whatever came before: during London hours (08:00 to
/// 17:00 UTC), once an Asia range is recorded, a price above the range is a
/// buy and a price below it a sell; there are no other buys or sells. During
/// Asia hours (00:00 to 08:00 UTC) the range restarts on the first tick of
/// the session and widens on the others, and is kept at any other hour. The
/// tick's session is remembered, and an Asia tick marks the range recorded.
pub proof fn lemma_breakout_rules(v: BreakoutView, timestamp: i64, position: PricePosition)
    ensures
        ({
            let secs = (timestamp as int / 1_000_000_000) % 86_400;
            let london = 28_800 <= secs < 61_200;
            let asia = 0 <= secs < 28_800;
            let d = breakout_decision(v, timestamp, position);
            let n = breakout_next(v, timestamp);
            &&& (d.signal == Signal::Buy) == (london && v.range_set && position == PricePosition::AboveHigh)
            &&& (d.signal == Signal::Sell) == (london && v.range_set && position == PricePosition::BelowLow)
            &&& (d.range == RangeUpdate::Restart) == (asia && v.last_session != Session::Asia)
            &&& (d.range == RangeUpdate::Extend) == (asia && v.last_session == Session::Asia)
            &&& (d.range == RangeUpdate::Keep) == !asia
            &&& n.range_set == (asia || v.range_set)
            &&& (n.last_session == Session::Asia) == asia
            &&& (n.last_session == Session::London) == london
        }),
{
    lemma_session_hours(timestamp);
}

impl BreakoutStrategy {
    /// A strategy with no range, after an off session.
    pub fn new() -> (r: Self)
        ensures
            r@ == (BreakoutView { last_session: Session::Off, range_set: false }),
    {
        BreakoutStrategy { last_session: Session::Off, range_set: false }
    }

    /// The strategy's name.
    pub fn name(&self) -> (r: &'static str)
        ensures
            r@ == "asia_range_breakout"@,
    {
        "asia_range_breakout"
    }

    /// Decides on a tick at `timestamp` whose price stands at `position`
    /// against the Asia range as it was before the tick.
    pub fn on_price(&mut self, timestamp: i64, position: PricePosition) -> (r: BreakoutDecision)
        ensures
            r == breakout_decision(old(self)@, timestamp, position),
            final(self)@ == breakout_next(old(self)@, timestamp),
    {
        let session = detect_session(timestamp);
        let range = if session == Session::Asia {
            if self.last_session != Session::Asia {
                RangeUpdate::Restart
            } else {
                RangeUpdate::Extend
            }
        } else {
            RangeUpdate::Keep
        };
        if session == Session::Asia {
            self.range_set = true;
        }
        let signal = if session == Session::London && self.range_set {
            match position {
                PricePosition::AboveHigh => Signal::Buy,
                PricePosition::BelowLow => Signal::Sell,
                PricePosition::Inside => Signal::Hold,
            }
        } else {
            Signal::Hold
        };
        self.last_session = session;
        BreakoutDecision { signal, range }
    }
}

} // verus!
