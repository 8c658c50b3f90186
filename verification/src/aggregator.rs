//! When bars open, close and grow, for the three timeframes at once.
//!
//! For each timeframe a bar is in progress from the first tick on. A tick at
//! or after the bar's start plus the timeframe's length closes it and opens
//! the next one at the tick; any other tick extends the bar in progress.
use vstd::prelude::*;
use crate::bar::{TimeFrame, spec_duration_nanos};

verus! {

/// The number of timeframes aggregated.
pub const TIMEFRAME_COUNT: usize = 3;

/// The timeframe aggregated in position `i`: 15 minutes, 1 hour, 4 hours.
pub open spec fn timeframe_of(i: int) -> TimeFrame {
    if i == 0 {
        TimeFrame::Min15
    } else if i == 1 {
        TimeFrame::H1
    } else {
        TimeFrame::H4
    }
}

/// The timeframe aggregated in position `i`.
pub fn timeframe_at(i: usize) -> (r: TimeFrame)
    requires
        i < TIMEFRAME_COUNT,
    ensures
        r == timeframe_of(i as int),
{
    if i == 0 {
        TimeFrame::Min15
    } else if i == 1 {
        TimeFrame::H1
    } else {
        TimeFrame::H4
    }
}

/// What a tick does to the bar of one timeframe.
#[derive(Clone, Copy, PartialEq, Eq, Structural, Debug)]
pub enum BarStep {
    /// No bar was in progress: the first bar opens at this tick.
    Open,
    /// The bar in progress is complete: it is closed and stored, and a new
    /// bar opens at this tick.
    Roll,
    /// The tick belongs to the bar in progress.
    Extend,
}

/// Per timeframe, whether a bar is in progress and when it started.
pub struct BarSchedule {
    open: [bool; 3],
    start_time: [i64; 3],
}

/// What a schedule holds, per timeframe.
pub struct ScheduleView {
    pub open: Seq<bool>,
    pub start_time: Seq<i64>,
}

impl View for BarSchedule {
    type V = ScheduleView;

    closed spec fn view(&self) -> ScheduleView {
        ScheduleView { open: self.open@, start_time: self.start_time@ }
    }
}

/// The step of the bar of timeframe `tf` on a tick at `timestamp`.
pub open spec fn step_of(open: bool, start: i64, timestamp: i64, tf: TimeFrame) -> BarStep {
    if !open {
        BarStep::Open
    } else if timestamp >= start + spec_duration_nanos(tf) {
        BarStep::Roll
    } else {
        BarStep::Extend
    }
}

/// The end of every bar in progress is a representable timestamp.
pub open spec fn ends_fit(v: ScheduleView) -> bool {
    forall|i: int| 0 <= i < TIMEFRAME_COUNT && #[trigger] v.open[i] ==>
        v.start_time[i] + spec_duration_nanos(timeframe_of(i)) <= i64::MAX
}

/// For each timeframe, with bars of 15 minutes, 1 hour and 4 hours: a tick
/// opens a bar exactly when none is in progress; a bar in progress is closed
/// (and the next one opened) exactly when the tick comes at or after its
/// start plus its length, and is extended by every earlier tick, so no bar
/// outgrows its length.
pub proof fn lemma_bar_step_rules(open: bool, start: i64, timestamp: i64, i: int)
    requires
        0 <= i < TIMEFRAME_COUNT,
    ensures
        ({
            let length: int = if i == 0 {
                15 * 60 * 1_000_000_000int
            } else if i == 1 {
                60 * 60 * 1_000_000_000int
            } else {
                4 * 60 * 60 * 1_000_000_000int
            };
            let step = step_of(open, start, timestamp, timeframe_of(i));
            &&& (step == BarStep::Open) == !open
            &&& (step == BarStep::Roll) == (open && timestamp >= start + length)
            &&& (step == BarStep::Extend) == (open && timestamp < start + length)
        }),
{
}

impl BarSchedule {
    /// No bar in progress in any timeframe.
    pub fn new() -> (r: Self)
        ensures
            r@.open == seq![false, false, false],
            r@.start_time == seq![0i64, 0i64, 0i64],
    {
        let r = BarSchedule { open: [false, false, false], start_time: [0, 0, 0] };
        assert(r@.open =~= seq![false, false, false]);
        assert(r@.start_time =~= seq![0i64, 0i64, 0i64]);
        r
    }

    /// Whether the end of every bar in progress is a representable timestamp,
    /// as `update` needs.
    pub fn can_update(&self) -> (r: bool)
        ensures
            r == ends_fit(self@),
    {
        let mut i: usize = 0;
        while i < TIMEFRAME_COUNT
            invariant
                i <= TIMEFRAME_COUNT,
                forall|j: int| 0 <= j < i && #[trigger] self@.open[j] ==>
                    self@.start_time[j] + spec_duration_nanos(timeframe_of(j)) <= i64::MAX,
            decreases TIMEFRAME_COUNT - i,
        {
            let d = timeframe_at(i).duration_nanos();
            if self.open[i] && self.start_time[i] > i64::MAX - d {
                assert(self@.open[i as int]);
                assert(self@.start_time[i as int] + spec_duration_nanos(timeframe_of(i as int)) > i64::MAX);
                return false;
            }
            i = i + 1;
        }
        true
    }

    /// Moves every timeframe on to a tick at `timestamp` and returns, per
    /// timeframe, what the tick does to its bar: a bar that opens or rolls
    /// starts at the tick, a bar that is extended keeps its start.
    pub fn update(&mut self, timestamp: i64) -> (r: [BarStep; 3])
        requires
            ends_fit(old(self)@),
        ensures
            forall|i: int| 0 <= i < TIMEFRAME_COUNT ==> {
                &&& #[trigger] r@[i] == step_of(old(self)@.open[i], old(self)@.start_time[i], timestamp, timeframe_of(i))
                &&& final(self)@.open[i]
                &&& final(self)@.start_time[i] == (if r@[i] == BarStep::Extend { old(self)@.start_time[i] } else { timestamp })
            },
            final(self)@.open.len() == TIMEFRAME_COUNT,
            final(self)@.start_time.len() == TIMEFRAME_COUNT,
    {
        let mut steps = [BarStep::Extend, BarStep::Extend, BarStep::Extend];
        let mut i: usize = 0;
        while i < TIMEFRAME_COUNT
            invariant
                i <= TIMEFRAME_COUNT,
                forall|j: int| i <= j < TIMEFRAME_COUNT ==> self.open@[j] == old(self)@.open[j] && self.start_time@[j] == old(self)@.start_time[j],
                forall|j: int| 0 <= j < TIMEFRAME_COUNT && #[trigger] old(self)@.open[j] ==>
                    old(self)@.start_time[j] + spec_duration_nanos(timeframe_of(j)) <= i64::MAX,
                forall|j: int| 0 <= j < i ==> {
                    &&& #[trigger] steps@[j] == step_of(old(self)@.open[j], old(self)@.start_time[j], timestamp, timeframe_of(j))
                    &&& self.open@[j]
                    &&& self.start_time@[j] == (if steps@[j] == BarStep::Extend { old(self)@.start_time[j] } else { timestamp })
                },
            decreases TIMEFRAME_COUNT - i,
        {
            let duration = timeframe_at(i).duration_nanos();
            if !self.open[i] {
                steps[i] = BarStep::Open;
                self.open[i] = true;
                self.start_time[i] = timestamp;
            } else if timestamp >= self.start_time[i] + duration {
                steps[i] = BarStep::Roll;
                self.start_time[i] = timestamp;
            } else {
                steps[i] = BarStep::Extend;
            }
            i = i + 1;
        }
        steps
    }
}

} // verus!
