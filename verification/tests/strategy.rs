use trading_engine::engine::{order_action, OrderAction};
use trading_engine::strategy::{
    detect_session, BreakoutDecision, BreakoutStrategy, PricePosition, RangeUpdate, Session, Signal,
};

const HOUR: i64 = 3_600_000_000_000;
const DAY: i64 = 24 * HOUR;

#[test]
fn sessions_of_the_day() {
    assert_eq!(detect_session(0), Session::Asia);
    assert_eq!(detect_session(8 * HOUR - 1), Session::Asia);
    assert_eq!(detect_session(8 * HOUR), Session::London);
    assert_eq!(detect_session(13 * HOUR), Session::London);
    assert_eq!(detect_session(17 * HOUR), Session::NewYork);
    assert_eq!(detect_session(22 * HOUR - 1), Session::NewYork);
    assert_eq!(detect_session(22 * HOUR), Session::Off);
    assert_eq!(detect_session(3 * DAY + 9 * HOUR), Session::London);
}

#[test]
fn sessions_before_the_epoch_follow_the_clock() {
    // -1 ns is 1969-12-31 23:59:59.999999999 UTC.
    assert_eq!(detect_session(-1), Session::Off);
    assert_eq!(detect_session(-HOUR), Session::Off);
    assert_eq!(detect_session(-DAY + 9 * HOUR), Session::London);
    assert_eq!(detect_session(-DAY), Session::Asia);
    assert_eq!(detect_session(-DAY + 7 * HOUR), Session::Asia);
}

fn decide(s: &mut BreakoutStrategy, ts: i64, pos: PricePosition) -> BreakoutDecision {
    s.on_price(ts, pos)
}

#[test]
fn first_tick_holds_without_a_breakout() {
    let mut s = BreakoutStrategy::new();
    assert_eq!(s.name(), "asia_range_breakout");
    let d = decide(&mut s, 0, PricePosition::AboveHigh);
    assert_eq!(d, BreakoutDecision { signal: Signal::Hold, range: RangeUpdate::Restart });
    let mut s = BreakoutStrategy::new();
    let d = decide(&mut s, 9 * HOUR, PricePosition::AboveHigh);
    assert_eq!(d, BreakoutDecision { signal: Signal::Hold, range: RangeUpdate::Keep });
}

#[test]
fn london_breakouts_of_the_asia_range() {
    let mut s = BreakoutStrategy::new();
    decide(&mut s, 23 * HOUR, PricePosition::Inside);
    let d = decide(&mut s, DAY + HOUR, PricePosition::AboveHigh);
    assert_eq!(d, BreakoutDecision { signal: Signal::Hold, range: RangeUpdate::Restart });
    let d = decide(&mut s, 2 * HOUR, PricePosition::Inside);
    assert_eq!(d, BreakoutDecision { signal: Signal::Hold, range: RangeUpdate::Extend });
    let d = decide(&mut s, 9 * HOUR, PricePosition::AboveHigh);
    assert_eq!(d, BreakoutDecision { signal: Signal::Buy, range: RangeUpdate::Keep });
    let d = decide(&mut s, 10 * HOUR, PricePosition::BelowLow);
    assert_eq!(d.signal, Signal::Sell);
    let d = decide(&mut s, 11 * HOUR, PricePosition::Inside);
    assert_eq!(d.signal, Signal::Hold);
    let d = decide(&mut s, 18 * HOUR, PricePosition::AboveHigh);
    assert_eq!(d, BreakoutDecision { signal: Signal::Hold, range: RangeUpdate::Keep });
    let d = decide(&mut s, DAY + HOUR, PricePosition::Inside);
    assert_eq!(d.range, RangeUpdate::Restart);
}

#[test]
fn no_breakout_before_an_asia_range() {
    let mut s = BreakoutStrategy::new();
    decide(&mut s, 9 * HOUR, PricePosition::Inside);
    let d = decide(&mut s, 10 * HOUR, PricePosition::AboveHigh);
    assert_eq!(d, BreakoutDecision { signal: Signal::Hold, range: RangeUpdate::Keep });
}

#[test]
fn order_actions_follow_the_position() {
    assert_eq!(order_action(Signal::Buy, false), OrderAction::Open);
    assert_eq!(order_action(Signal::Buy, true), OrderAction::Hold);
    assert_eq!(order_action(Signal::Sell, true), OrderAction::Close);
    assert_eq!(order_action(Signal::Sell, false), OrderAction::Hold);
    assert_eq!(order_action(Signal::Hold, true), OrderAction::Hold);
    assert_eq!(order_action(Signal::Hold, false), OrderAction::Hold);
}

#[test]
fn opens_and_closes_alternate() {
    let signals = [Signal::Buy, Signal::Buy, Signal::Sell, Signal::Sell, Signal::Hold, Signal::Buy, Signal::Sell];
    let mut open = false;
    let mut actions = Vec::new();
    for s in signals {
        let a = order_action(s, open);
        match a {
            OrderAction::Open => open = true,
            OrderAction::Close => open = false,
            OrderAction::Hold => {}
        }
        if a != OrderAction::Hold {
            actions.push(a);
        }
    }
    assert_eq!(actions, vec![OrderAction::Open, OrderAction::Close, OrderAction::Open, OrderAction::Close]);
}
