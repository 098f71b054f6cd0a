//! Calendar-free time model: a trading timestamp is a day number plus a
//! millisecond-of-day, and a session schedule is a list of intervals over
//! the time of day.  An interval either lies inside one day or jumps the
//! midnight boundary and then spans a configured number of session days.

use vstd::prelude::*;

verus! {

/// Milliseconds in one day.
pub const MSEC_PER_DAY: u32 = 86400000;

/// A point in trading time: `day` counts calendar days from an arbitrary
/// epoch, `msec` is the time of day in milliseconds.
#[derive(Clone, Copy, PartialEq, Eq, Structural, Debug, Hash)]
pub struct TimePoint {
    pub day: i32,
    pub msec: u32,
}

impl TimePoint {
    /// A well-formed time of day stays below midnight.
    pub open spec fn wf(self) -> bool {
        self.msec < MSEC_PER_DAY
    }

    pub open spec fn le_spec(self, other: TimePoint) -> bool {
        self.day < other.day || (self.day == other.day && self.msec <= other.msec)
    }

    pub fn new(day: i32, msec: u32) -> (r: TimePoint)
        requires
            msec < MSEC_PER_DAY,
        ensures
            r == (TimePoint { day, msec }),
            r.wf(),
    {
        TimePoint { day, msec }
    }

    /// Chronological order: first by day, then by time of day.
    pub fn le(&self, other: &TimePoint) -> (r: bool)
        ensures
            r == self.le_spec(*other),
    {
        self.day < other.day || (self.day == other.day && self.msec <= other.msec)
    }
}

impl Default for TimePoint {
    /// The epoch itself: day zero, midnight.
    fn default() -> (r: TimePoint)
        ensures
            r == (TimePoint { day: 0, msec: 0 }),
    {
        TimePoint { day: 0, msec: 0 }
    }
}

/// One session interval over the time of day, in milliseconds.
/// `Time(start, end)` lies inside a single day; `DayJump(start, days, end)`
/// opens at `start`, crosses midnight and closes at `end` after at most
/// `days` day changes.
#[derive(Clone, Copy, PartialEq, Eq, Structural, Debug, Hash)]
pub enum Interval {
    Time(u32, u32),
    DayJump(u32, i64, u32),
}

impl Default for Interval {
    /// The empty single-day interval at midnight.
    fn default() -> (r: Interval)
        ensures
            r == Interval::Time(0u32, 0u32),
    {
        Interval::Time(0, 0)
    }
}

/// Running day-change record of an open `DayJump` interval: the last day
/// seen and how many day changes have been counted.
#[derive(Clone, Copy, PartialEq, Eq, Structural, Debug)]
pub struct DayRecord {
    pub day: i32,
    pub count: i64,
}

impl Default for DayRecord {
    fn default() -> (r: DayRecord)
        ensures
            r == (DayRecord { day: 0i32, count: 0i64 }),
    {
        DayRecord { day: 0, count: 0 }
    }
}

/// Whether the interval's time-of-day window contains `msec`.
pub open spec fn interval_contains(iv: Interval, msec: u32) -> bool {
    match iv {
        Interval::Time(start, end) => start <= msec && msec <= end,
        Interval::DayJump(start, _days, end) => msec >= start || msec <= end,
    }
}

/// The day-change record after seeing a point of time inside an open
/// interval.  Only `DayJump` intervals keep a record; a change is counted
/// when the date advances, or when the clock has wrapped behind the opening
/// time before any change was counted.
pub open spec fn record_step(iv: Interval, rec: DayRecord, day: i32, msec: u32) -> DayRecord {
    match iv {
        Interval::Time(_, _) => rec,
        Interval::DayJump(start, _days, _end) => {
            if day > rec.day || (rec.count == 0 && msec < start) {
                DayRecord { day, count: if rec.count < i64::MAX { (rec.count + 1) as i64 } else { i64::MAX } }
            } else {
                rec
            }
        },
    }
}

/// Whether the open interval has ended at the given point of time, with
/// `rec` the day-change record from before this point.
pub open spec fn interval_ended(iv: Interval, rec: DayRecord, day: i32, msec: u32) -> bool {
    match iv {
        Interval::Time(_start, end) => msec >= end || day != rec.day,
        Interval::DayJump(_start, days, end) => {
            let r = record_step(iv, rec, day, msec);
            r.count > days || (r.count == days && msec >= end)
        },
    }
}

/// First interval of the schedule whose window contains `msec`, if any.
pub open spec fn first_containing(s: Seq<Interval>, msec: u32) -> Option<Interval>
    decreases s.len(),
{
    if s.len() == 0 {
        None
    } else if interval_contains(s[0], msec) {
        Some(s[0])
    } else {
        first_containing(s.drop_first(), msec)
    }
}

impl Interval {
    /// Whether this interval's window contains the given time of day.
    pub fn is_in(&self, msec: u32) -> (r: bool)
        ensures
            r == interval_contains(*self, msec),
    {
        match self {
            Interval::Time(start, end) => *start <= msec && msec <= *end,
            Interval::DayJump(start, _days, end) => msec >= *start || msec <= *end,
        }
    }

    /// Advances the day-change record and reports whether the open interval
    /// has ended at `(day, msec)`.
    pub fn is_end(&self, rec: &mut DayRecord, day: i32, msec: u32) -> (r: bool)
        ensures
            *final(rec) == record_step(*self, *old(rec), day, msec),
            r == interval_ended(*self, *old(rec), day, msec),
    {
        match self {
            Interval::Time(_start, end) => msec >= *end || day != rec.day,
            Interval::DayJump(start, days, end) => {
                if day > rec.day || (rec.count == 0 && msec < *start) {
                    rec.day = day;
                    rec.count = if rec.count < i64::MAX { rec.count + 1 } else { i64::MAX };
                }
                rec.count > *days || (rec.count == *days && msec >= *end)
            },
        }
    }

    /// First interval of `intervals` containing `msec`, if any.
    pub fn get_time_end(intervals: &Vec<Interval>, msec: u32) -> (r: Option<Interval>)
        ensures
            r == first_containing(intervals@, msec),
    {
        let n = intervals.len();
        let mut i: usize = 0;
        proof {
            assert(intervals@.skip(0) =~= intervals@);
        }
        while i < n
            invariant
                n == intervals@.len(),
                i <= n,
                first_containing(intervals@, msec) == first_containing(intervals@.skip(i as int), msec),
            decreases n - i,
        {
            proof {
                assert(intervals@.skip(i as int)[0] == intervals@[i as int]);
                assert(intervals@.skip(i as int).drop_first() =~= intervals@.skip(i as int + 1));
            }
            if intervals[i].is_in(msec) {
                return Some(intervals[i]);
            }
            i = i + 1;
        }
        proof {
            assert(intervals@.skip(n as int).len() == 0);
        }
        None
    }

    /// The closing time of day of the interval.
    pub fn end_time(&self) -> (r: u32)
        ensures
            r == interval_end_spec(*self),
    {
        match self {
            Interval::Time(_, end) => *end,
            Interval::DayJump(_, _, end) => *end,
        }
    }
}

pub open spec fn interval_end_spec(iv: Interval) -> u32 {
    match iv {
        Interval::Time(_, end) => end,
        Interval::DayJump(_, _, end) => end,
    }
}

/// A copy of a schedule.
pub fn copy_intervals(ivs: &Vec<Interval>) -> (r: Vec<Interval>)
    ensures
        r@ == ivs@,
{
    let n = ivs.len();
    let mut r: Vec<Interval> = Vec::with_capacity(n);
    let mut i: usize = 0;
    while i < n
        invariant
            n == ivs@.len(),
            i <= n,
            r@ =~= ivs@.take(i as int),
        decreases n - i,
    {
        r.push(ivs[i]);
        proof {
            assert(r@ =~= ivs@.take(i as int + 1));
        }
        i = i + 1;
    }
    proof {
        assert(r@ =~= ivs@);
    }
    r
}

/// The schedule produced by slicing the clock from `start` into steps of
/// `step` ms, each slice closing `offset` ms before the next opens.
/// Slicing stops at `end` when `start <= end` is still ahead, and otherwise
/// runs to midnight and closes with a day-jumping interval.
pub open spec fn even_slices(start: u32, end: u32, step: u32, offset: u32) -> Seq<Interval>
    recommends
        start < MSEC_PER_DAY,
        0 < step <= MSEC_PER_DAY,
        offset < step,
    decreases MSEC_PER_DAY - start,
{
    let raw = start + step - offset;
    if raw >= MSEC_PER_DAY {
        seq![Interval::DayJump(start, 1, (raw - MSEC_PER_DAY) as u32)]
    } else if start <= end && raw >= end {
        seq![Interval::Time(start, end)]
    } else if start + step >= MSEC_PER_DAY || !(start < MSEC_PER_DAY && 0 < step <= MSEC_PER_DAY && offset < step) {
        seq![Interval::Time(start, (raw) as u32)]
    } else {
        seq![Interval::Time(start, (raw) as u32)] + even_slices((start + step) as u32, end, step, offset)
    }
}

/// Cuts the day into evenly stepped intervals: each opens where the last
/// closed plus `offset`, and the schedule closes at `end`, or with a
/// day-jumping interval if the slices run past midnight.  Slicing that
/// would reopen past midnight stops at the day boundary.
pub fn even_slice_time(start: u32, end: u32, step: u32, offset: u32) -> (res: Vec<Interval>)
    requires
        start < MSEC_PER_DAY,
        end < MSEC_PER_DAY,
        0 < step <= MSEC_PER_DAY,
        offset < step,
    ensures
        res@ == even_slices(start, end, step, offset),
{
    let mut res: Vec<Interval> = Vec::new();
    let mut start_last: u32 = start;
    loop
        invariant_except_break
            start < MSEC_PER_DAY,
            end < MSEC_PER_DAY,
            0 < step <= MSEC_PER_DAY,
            offset < step,
            start_last < MSEC_PER_DAY,
            even_slices(start, end, step, offset) == res@ + even_slices(start_last, end, step, offset),
        ensures
            res@ == even_slices(start, end, step, offset),
        decreases MSEC_PER_DAY - start_last,
    {
        let ghost pre = res@;
        let ghost tail = even_slices(start_last, end, step, offset);
        let raw64: u64 = start_last as u64 + (step - offset) as u64;
        if raw64 >= MSEC_PER_DAY as u64 {
            let iv = Interval::DayJump(start_last, 1, (raw64 - MSEC_PER_DAY as u64) as u32);
            res.push(iv);
            proof {
                assert(tail =~= seq![iv]);
                assert(res@ =~= even_slices(start, end, step, offset));
            }
            break;
        }
        let raw: u32 = raw64 as u32;
        if start_last <= end && raw >= end {
            let iv = Interval::Time(start_last, end);
            res.push(iv);
            proof {
                assert(tail =~= seq![iv]);
                assert(res@ =~= even_slices(start, end, step, offset));
            }
            break;
        }
        let iv = Interval::Time(start_last, raw);
        res.push(iv);
        if start_last as u64 + step as u64 >= MSEC_PER_DAY as u64 {
            proof {
                assert(tail =~= seq![iv]);
                assert(res@ =~= even_slices(start, end, step, offset));
            }
            break;
        }
        proof {
            assert(tail =~= seq![iv] + even_slices((start_last + step) as u32, end, step, offset));
            assert(res@ + even_slices((start_last + step) as u32, end, step, offset) =~= pre + tail);
        }
        start_last = start_last + step;
    }
    res
}

/// The second-resolution convenience form: `start` and `end` as seconds of
/// the day, `step` in seconds, closing half a second before each reopening.
pub fn even_slice_time_sec(start: u32, end: u32, step: u32) -> (res: Vec<Interval>)
    requires
        start * 1000 < MSEC_PER_DAY,
        end * 1000 < MSEC_PER_DAY,
        0 < step,
        step * 1000 <= MSEC_PER_DAY,
        500 < step * 1000,
    ensures
        res@ == even_slices((start * 1000) as u32, (end * 1000) as u32, (step * 1000) as u32, 500),
{
    even_slice_time(start * 1000, end * 1000, step * 1000, 500)
}

} // verus!
