//! Bar timeframes and a fixed-capacity history of bars, newest first.
use vstd::prelude::*;

verus! {

/// The timeframes bars are aggregated over.
#[derive(Clone, Copy, PartialEq, Eq, Structural, Debug)]
pub enum TimeFrame {
    Min15,
    H1,
    H4,
}

/// The length of a bar of the timeframe, in nanoseconds.
pub open spec fn spec_duration_nanos(tf: TimeFrame) -> i64 {
    match tf {
        TimeFrame::Min15 => 900_000_000_000,
        TimeFrame::H1 => 3_600_000_000_000,
        TimeFrame::H4 => 14_400_000_000_000,
    }
}

/// The position of the timeframe among `Min15`, `H1`, `H4`.
pub open spec fn spec_timeframe_index(tf: TimeFrame) -> usize {
    match tf {
        TimeFrame::Min15 => 0,
        TimeFrame::H1 => 1,
        TimeFrame::H4 => 2,
    }
}

impl TimeFrame {
    /// 15 minutes, 1 hour or 4 hours, in nanoseconds.
    pub fn duration_nanos(&self) -> (r: i64)
        ensures
            r == spec_duration_nanos(*self),
    {
        match self {
            TimeFrame::Min15 => 15 * 60 * 1_000_000_000,
            TimeFrame::H1 => 60 * 60 * 1_000_000_000,
            TimeFrame::H4 => 4 * 60 * 60 * 1_000_000_000,
        }
    }

    /// 0, 1 or 2.
    pub fn index(&self) -> (r: usize)
        ensures
            r == spec_timeframe_index(*self),
    {
        match self {
            TimeFrame::Min15 => 0,
            TimeFrame::H1 => 1,
            TimeFrame::H4 => 2,
        }
    }
}

/// The last (at most) `N` bars pushed, in a circular array of `N` slots.
pub struct BarBuffer<T, const N: usize> {
    slots: Vec<T>,
    head: usize,
    len: usize,
}

/// The slot that holds the bar pushed `offset` pushes before the newest one.
pub open spec fn recent_slot(head: int, offset: int, n: int) -> int {
    (head + n - 1 - offset) % n
}

impl<T, const N: usize> View for BarBuffer<T, N> {
    type V = Seq<T>;

    /// The bars held, newest first.
    closed spec fn view(&self) -> Seq<T> {
        Seq::new(self.len as nat, |k: int| self.slots@[recent_slot(self.head as int, k, N as int)])
    }
}

impl<T: Copy, const N: usize> BarBuffer<T, N> {
    /// The buffer has `N` slots, the next one to fill is `head`, and `len`
    /// bars, at most `N`, are held.
    pub closed spec fn wf(&self) -> bool {
        &&& self.slots.len() == N
        &&& self.len <= N
        &&& (N > 0 ==> self.head < N)
    }

    /// The bar pushed `offset` pushes before the newest one, if it is still
    /// held.
    pub fn get(&self, offset: usize) -> (r: Option<&T>)
        requires
            self.wf(),
        ensures
            r == (if offset < self@.len() { Some(&self@[offset as int]) } else { None }),
    {
        if offset >= self.len {
            return None;
        }
        let index = if self.head > offset {
            self.head - 1 - offset
        } else {
            self.head + (N - 1 - offset)
        };
        assert(index as int == recent_slot(self.head as int, offset as int, N as int)) by {
            let n = N as int;
            let h = self.head as int;
            let o = offset as int;
            if h > o {
                assert((h - 1 - o + n) % n == h - 1 - o) by (nonlinear_arith)
                    requires 0 <= h - 1 - o < n;
            } else {
                assert((h + n - 1 - o) % n == h + n - 1 - o) by (nonlinear_arith)
                    requires 0 <= h + n - 1 - o < n;
            }
        }
        Some(&self.slots[index])
    }

    /// The number of bars held.
    pub fn len(&self) -> (r: usize)
        requires
            self.wf(),
        ensures
            r == self@.len(),
    {
        self.len
    }
}

impl<T: Default + Copy, const N: usize> BarBuffer<T, N> {
    /// An empty buffer of `N` slots.
    pub fn new() -> (r: Self)
        ensures
            r.wf(),
            r@ == Seq::<T>::empty(),
    {
        let mut slots: Vec<T> = Vec::new();
        let mut i: usize = 0;
        while i < N
            invariant
                i <= N,
                slots.len() == i,
            decreases N - i,
        {
            slots.push(T::default());
            i = i + 1;
        }
        let r = BarBuffer { slots, head: 0, len: 0 };
        assert(r@ =~= Seq::<T>::empty());
        r
    }
}

impl<T: Copy, const N: usize> BarBuffer<T, N> {
    /// Pushes `bar` as the newest bar; once `N` bars are held, the oldest is
    /// dropped.
    pub fn push(&mut self, bar: T)
        requires
            old(self).wf(),
            N > 0,
        ensures
            final(self).wf(),
            final(self)@ == (if old(self)@.len() < N { seq![bar] + old(self)@ } else { seq![bar] + old(self)@.drop_last() }),
    {
        let ghost old_head = self.head as int;
        self.slots.set(self.head, bar);
        self.head = (self.head + 1) % N;
        if self.len < N {
            self.len = self.len + 1;
        }
        proof {
            let n = N as int;
            let expected = if old(self)@.len() < N { seq![bar] + old(self)@ } else { seq![bar] + old(self)@.drop_last() };
            assert(self.head as int == (old_head + 1) % n);
            assert forall|k: int| 0 <= k < self@.len() implies #[trigger] self@[k] == expected[k] by {
                let h = old_head;
                if k == 0 {
                    assert(recent_slot(self.head as int, 0, n) == h) by (nonlinear_arith)
                        requires 0 <= h < n, self.head as int == (h + 1) % n;
                } else {
                    assert(recent_slot(self.head as int, k, n) == recent_slot(h, k - 1, n)) by (nonlinear_arith)
                        requires 0 <= h < n, 0 < k <= n, self.head as int == (h + 1) % n;
                    assert(recent_slot(h, k - 1, n) != h) by (nonlinear_arith)
                        requires 0 <= h < n, 0 < k < n;
                }
            }
            assert(self@ =~= expected);
        }
    }
}

} // verus!
