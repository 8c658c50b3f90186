use trading_engine::aggregator::{timeframe_at, BarSchedule, BarStep};
use trading_engine::bar::{BarBuffer, TimeFrame};

#[test]
fn timeframe_lengths_and_positions() {
    assert_eq!(TimeFrame::Min15.duration_nanos(), 900_000_000_000);
    assert_eq!(TimeFrame::H1.duration_nanos(), 3_600_000_000_000);
    assert_eq!(TimeFrame::H4.duration_nanos(), 14_400_000_000_000);
    assert_eq!(TimeFrame::Min15.index(), 0);
    assert_eq!(TimeFrame::H1.index(), 1);
    assert_eq!(TimeFrame::H4.index(), 2);
    assert_eq!(timeframe_at(1), TimeFrame::H1);
}

#[test]
fn bar_buffer_returns_newest_first() {
    let mut buf: BarBuffer<u32, 3> = BarBuffer::new();
    assert_eq!(buf.get(0), None);
    buf.push(1);
    buf.push(2);
    assert_eq!(buf.len(), 2);
    assert_eq!(buf.get(0), Some(&2));
    assert_eq!(buf.get(1), Some(&1));
    assert_eq!(buf.get(2), None);
}

#[test]
fn bar_buffer_drops_oldest_when_full() {
    let mut buf: BarBuffer<u32, 3> = BarBuffer::new();
    for b in 1..=5 {
        buf.push(b);
    }
    assert_eq!(buf.len(), 3);
    assert_eq!(buf.get(0), Some(&5));
    assert_eq!(buf.get(1), Some(&4));
    assert_eq!(buf.get(2), Some(&3));
    assert_eq!(buf.get(3), None);
}

#[test]
fn schedule_opens_extends_and_rolls() {
    let min15 = 900_000_000_000i64;
    let h1 = 3_600_000_000_000i64;
    let mut s = BarSchedule::new();
    assert_eq!(s.update(0), [BarStep::Open, BarStep::Open, BarStep::Open]);
    assert_eq!(s.update(min15 - 1), [BarStep::Extend, BarStep::Extend, BarStep::Extend]);
    assert_eq!(s.update(min15), [BarStep::Roll, BarStep::Extend, BarStep::Extend]);
    // The 15-minute bar restarted at `min15`; an hour from 0 closes the hourly bar.
    assert_eq!(s.update(h1), [BarStep::Roll, BarStep::Roll, BarStep::Extend]);
    assert_eq!(s.update(h1 + 1), [BarStep::Extend, BarStep::Extend, BarStep::Extend]);
}
