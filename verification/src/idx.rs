//! Slicing and selection: cutting a series or dataset down to an index
//! range, an explicit index list, or the last days of trading, plus the
//! small descriptors readers and filters are configured with.

use vstd::prelude::*;
use crate::clock::TimePoint;
use crate::di::{DataInfo, DataInfoList, Pcon, base_bars};
use crate::inter::{KlineData, TickData};
use crate::price::{PriceOri, PriceTick, PriceArc};

verus! {

/// A selection of positions: a contiguous range or an explicit list.
#[derive(Debug)]
pub enum Idx {
    Range(usize, usize),
    List(Vec<usize>),
}

/// The positions a selection denotes, in order.
pub open spec fn idx_seq(x: Idx) -> Seq<int> {
    match x {
        Idx::Range(a, b) => if a <= b {
            Seq::new((b - a) as nat, |i: int| a + i)
        } else {
            Seq::empty()
        },
        Idx::List(v) => Seq::new(v@.len(), |i: int| v@[i] as int),
    }
}

/// Every denoted position lies below `len`.
pub open spec fn idx_in_bounds(x: Idx, len: int) -> bool {
    forall|i: int| 0 <= i < idx_seq(x).len() ==> 0 <= #[trigger] idx_seq(x)[i] < len
}

impl Idx {
    /// The denoted positions as a vector.
    pub fn into_vec(self) -> (r: Vec<usize>)
        ensures
            r@.len() == idx_seq(self).len(),
            forall|i: int| 0 <= i < r@.len() ==> #[trigger] r@[i] as int == idx_seq(self)[i],
    {
        match self {
            Idx::Range(a, b) => {
                let mut r: Vec<usize> = Vec::new();
                let mut i: usize = a;
                if a >= b {
                    return r;
                }
                while i < b
                    invariant
                        a <= i <= b,
                        r@.len() == i - a,
                        forall|j: int| 0 <= j < r@.len() ==> #[trigger] r@[j] as int == a + j,
                    decreases b - i,
                {
                    r.push(i);
                    i = i + 1;
                }
                r
            },
            Idx::List(v) => v,
        }
    }
}

/// The bars of `bs` at the given positions, in order.
pub open spec fn select_bars(bs: Seq<KlineData>, is: Seq<int>) -> Seq<KlineData> {
    Seq::new(is.len(), |k: int| bs[is[k]])
}

/// The ticks of `ts` at the given positions, in order.
pub open spec fn select_ticks(ts: Seq<TickData>, is: Seq<int>) -> Seq<TickData> {
    Seq::new(is.len(), |k: int| ts[is[k]])
}

impl PriceOri {
    /// The bars at the selected positions, as a fresh store.
    pub fn idx_out(&self, idx: &Idx) -> (r: PriceOri)
        requires
            self.wf(),
            idx_in_bounds(*idx, self.bars().len() as int),
        ensures
            r.wf(),
            r.bars() == select_bars(self.bars(), idx_seq(*idx)),
            r.immut_info@.len() == 0,
    {
        let positions = match idx {
            Idx::Range(a, b) => {
                let mut v: Vec<usize> = Vec::new();
                let mut i: usize = *a;
                if *a < *b {
                    while i < *b
                        invariant
                            *a <= i <= *b,
                            v@.len() == i - *a,
                            forall|j: int| 0 <= j < v@.len() ==> #[trigger] v@[j] as int == *a + j,
                        decreases *b - i,
                    {
                        v.push(i);
                        i = i + 1;
                    }
                }
                proof {
                    assert forall|j: int| 0 <= j < v@.len()
                        implies #[trigger] v@[j] as int == idx_seq(*idx)[j] by {}
                    assert(v@.len() == idx_seq(*idx).len());
                }
                v
            },
            Idx::List(v) => {
                let mut out: Vec<usize> = Vec::with_capacity(v.len());
                let n = v.len();
                let mut i: usize = 0;
                while i < n
                    invariant
                        n == v@.len(),
                        i <= n,
                        out@.len() == i,
                        forall|j: int| 0 <= j < i ==> #[trigger] out@[j] == v@[j],
                    decreases n - i,
                {
                    out.push(v[i]);
                    i = i + 1;
                }
                proof {
                    assert forall|j: int| 0 <= j < out@.len()
                        implies #[trigger] out@[j] as int == idx_seq(*idx)[j] by {}
                    assert(out@.len() == idx_seq(*idx).len());
                }
                out
            },
        };
        let m = positions.len();
        let mut r = PriceOri::with_capacity(m);
        let mut k: usize = 0;
        while k < m
            invariant
                self.wf(),
                r.wf(),
                m == positions@.len(),
                m == idx_seq(*idx).len(),
                forall|j: int| 0 <= j < m ==> #[trigger] positions@[j] as int == idx_seq(*idx)[j],
                idx_in_bounds(*idx, self.bars().len() as int),
                k <= m,
                r.immut_info@.len() == 0,
                r.bars() =~= select_bars(self.bars(), idx_seq(*idx)).take(k as int),
            decreases m - k,
        {
            proof {
                assert(idx_seq(*idx)[k as int] == positions@[k as int] as int);
                assert(0 <= idx_seq(*idx)[k as int] < self.bars().len());
            }
            let b = self.get_bar(positions[k]);
            r.update(&b);
            proof {
                assert(r.bars() =~= select_bars(self.bars(), idx_seq(*idx)).take(k as int + 1));
            }
            k = k + 1;
        }
        proof {
            assert(select_bars(self.bars(), idx_seq(*idx)).take(m as int)
                =~= select_bars(self.bars(), idx_seq(*idx)));
        }
        r
    }
}

impl PriceTick {
    /// The ticks at the selected positions, as a fresh store.
    pub fn idx_out(&self, idx: &Idx) -> (r: PriceTick)
        requires
            self.wf(),
            idx_in_bounds(*idx, self.ticks().len() as int),
        ensures
            r.wf(),
            r.ticks() == select_ticks(self.ticks(), idx_seq(*idx)),
    {
        let positions = match idx {
            Idx::Range(a, b) => {
                let mut v: Vec<usize> = Vec::new();
                let mut i: usize = *a;
                if *a < *b {
                    while i < *b
                        invariant
                            *a <= i <= *b,
                            v@.len() == i - *a,
                            forall|j: int| 0 <= j < v@.len() ==> #[trigger] v@[j] as int == *a + j,
                        decreases *b - i,
                    {
                        v.push(i);
                        i = i + 1;
                    }
                }
                proof {
                    assert forall|j: int| 0 <= j < v@.len()
                        implies #[trigger] v@[j] as int == idx_seq(*idx)[j] by {}
                    assert(v@.len() == idx_seq(*idx).len());
                }
                v
            },
            Idx::List(v) => {
                let mut out: Vec<usize> = Vec::with_capacity(v.len());
                let n = v.len();
                let mut i: usize = 0;
                while i < n
                    invariant
                        n == v@.len(),
                        i <= n,
                        out@.len() == i,
                        forall|j: int| 0 <= j < i ==> #[trigger] out@[j] == v@[j],
                    decreases n - i,
                {
                    out.push(v[i]);
                    i = i + 1;
                }
                proof {
                    assert forall|j: int| 0 <= j < out@.len()
                        implies #[trigger] out@[j] as int == idx_seq(*idx)[j] by {}
                    assert(out@.len() == idx_seq(*idx).len());
                }
                out
            },
        };
        let m = positions.len();
        let mut r = PriceTick::with_capacity(m);
        let mut k: usize = 0;
        while k < m
            invariant
                self.wf(),
                r.wf(),
                m == positions@.len(),
                m == idx_seq(*idx).len(),
                forall|j: int| 0 <= j < m ==> #[trigger] positions@[j] as int == idx_seq(*idx)[j],
                idx_in_bounds(*idx, self.ticks().len() as int),
                k <= m,
                r.ticks() =~= select_ticks(self.ticks(), idx_seq(*idx)).take(k as int),
            decreases m - k,
        {
            proof {
                assert(idx_seq(*idx)[k as int] == positions@[k as int] as int);
                assert(0 <= idx_seq(*idx)[k as int] < self.ticks().len());
            }
            let t = self.get_tick(positions[k]);
            r.update(&t);
            proof {
                assert(r.ticks() =~= select_ticks(self.ticks(), idx_seq(*idx)).take(k as int + 1));
            }
            k = k + 1;
        }
        proof {
            assert(select_ticks(self.ticks(), idx_seq(*idx)).take(m as int)
                =~= select_ticks(self.ticks(), idx_seq(*idx)));
        }
        r
    }
}

/// Anything that can be cut down to a selection of positions.
pub trait GetPart: Sized {
    /// The validity the slicing relies on.
    spec fn part_wf(&self) -> bool;

    /// How many positions the value covers.
    spec fn part_len(&self) -> int;

    /// What it means for `r` to be this value restricted to `idx`.
    spec fn part_spec(&self, idx: Idx, r: &Self) -> bool;

    /// The value restricted to the selected positions.
    fn get_part(&self, idx: &Idx) -> (r: Self)
        requires
            self.part_wf(),
            idx_in_bounds(*idx, self.part_len()),
        ensures
            self.part_spec(*idx, &r),
    ;
}

impl GetPart for PriceOri {
    open spec fn part_wf(&self) -> bool {
        self.wf()
    }

    open spec fn part_len(&self) -> int {
        self.bars().len() as int
    }

    open spec fn part_spec(&self, idx: Idx, r: &PriceOri) -> bool {
        r.wf() && r.bars() == select_bars(self.bars(), idx_seq(idx))
    }

    fn get_part(&self, idx: &Idx) -> (r: PriceOri) {
        self.idx_out(idx)
    }
}

impl GetPart for PriceTick {
    open spec fn part_wf(&self) -> bool {
        self.wf()
    }

    open spec fn part_len(&self) -> int {
        self.ticks().len() as int
    }

    open spec fn part_spec(&self, idx: Idx, r: &PriceTick) -> bool {
        r.wf() && r.ticks() == select_ticks(self.ticks(), idx_seq(idx))
    }

    fn get_part(&self, idx: &Idx) -> (r: PriceTick) {
        self.idx_out(idx)
    }
}

impl GetPart for DataInfo {
    open spec fn part_wf(&self) -> bool {
        self.wf()
    }

    open spec fn part_len(&self) -> int {
        base_bars(*self).len() as int
    }

    open spec fn part_spec(&self, idx: Idx, r: &DataInfo) -> bool {
        r.wf() && base_bars(*r) == select_bars(base_bars(*self), idx_seq(idx))
    }

    fn get_part(&self, idx: &Idx) -> (r: DataInfo) {
        let sliced = self.pcon.price.idx_out(idx);
        proof {
            assert forall|j: int| 0 <= j < sliced.bars().len()
                implies crate::dcon::kline_bounded(#[trigger] sliced.bars()[j], crate::util::VAL_CAP as int)
                    && sliced.bars()[j].volume >= 0 && sliced.bars()[j].amount >= 0 by {
                let p = idx_seq(*idx)[j];
                assert(crate::dcon::kline_bounded(base_bars(*self)[p], crate::util::VAL_CAP as int));
                assert(base_bars(*self)[p].volume >= 0 && base_bars(*self)[p].amount >= 0);
            }
        }
        let inter = crate::clock::copy_intervals(&self.pcon.inter);
        Pcon { price: sliced, inter, ticker: self.pcon.ticker }.to_di()
    }
}

/// A trailing selection: the last `n` positions, or selections by
/// trading day — the last `n` days, the first `n` days, or the `n`-th
/// day.
#[derive(Clone, Copy, PartialEq, Eq, Structural, Debug)]
pub enum NLast {
    Num(usize),
    Day(usize),
    DayFirst(usize),
    DayNth(usize),
}

/// The time of day from which a bar counts towards the next trading day:
/// a night session opens the day that follows it.
pub const NIGHT_SESSION_MSEC: u32 = 72000000;

/// The trading day a timestamp belongs to.
pub open spec fn trading_day(tp: TimePoint) -> int {
    tp.day + (if tp.msec >= NIGHT_SESSION_MSEC { 1int } else { 0int })
}

/// Whether position `i` opens a new trading day.
pub open spec fn is_day_start(ds: Seq<TimePoint>, i: int) -> bool {
    i == 0 || trading_day(ds[i]) != trading_day(ds[i - 1])
}

/// The positions below `n` at which a new trading day starts, in order.
pub open spec fn day_starts_upto(ds: Seq<TimePoint>, n: int) -> Seq<int>
    decreases n,
{
    if n <= 0 {
        Seq::empty()
    } else {
        day_starts_upto(ds, n - 1) + (if is_day_start(ds, n - 1) { seq![n - 1] } else { Seq::empty() })
    }
}

/// The day-start positions of a whole series.
pub open spec fn day_starts_of(ds: Seq<TimePoint>) -> Seq<int> {
    day_starts_upto(ds, ds.len() as int)
}

/// The positions at which a new trading day starts, in order and
/// complete.
pub fn find_day_starts(ds: &Vec<TimePoint>) -> (r: Vec<usize>)
    ensures
        r@.len() == day_starts_of(ds@).len(),
        forall|k: int| 0 <= k < r@.len() ==> #[trigger] r@[k] as int == day_starts_of(ds@)[k],
{
    let n = ds.len();
    let mut r: Vec<usize> = Vec::new();
    let mut i: usize = 0;
    while i < n
        invariant
            n == ds@.len(),
            i <= n,
            r@.len() == day_starts_upto(ds@, i as int).len(),
            forall|k: int| 0 <= k < r@.len() ==> #[trigger] r@[k] as int == day_starts_upto(ds@, i as int)[k],
        decreases n - i,
    {
        let start = if i == 0 {
            true
        } else {
            let cur = ds[i];
            let prev = ds[i - 1];
            let cd: i64 = cur.day as i64 + (if cur.msec >= NIGHT_SESSION_MSEC { 1 } else { 0 });
            let pd: i64 = prev.day as i64 + (if prev.msec >= NIGHT_SESSION_MSEC { 1 } else { 0 });
            cd != pd
        };
        proof {
            assert(start == is_day_start(ds@, i as int));
        }
        if start {
            r.push(i);
        }
        i = i + 1;
    }
    r
}

/// The half-open base-grid range a trailing selection denotes: the last
/// `n` positions, the last `n` trading days, the first `n` trading days,
/// or the `n`-th trading day.
pub open spec fn nlast_bounds(ds: Seq<TimePoint>, n: NLast) -> (int, int) {
    let len = ds.len() as int;
    let starts = day_starts_of(ds);
    match n {
        NLast::Num(k) => (if k as int <= len { len - k } else { 0 }, len),
        NLast::Day(k) => (
            if k == 0 {
                len
            } else if k as int <= starts.len() {
                starts[starts.len() - k]
            } else {
                0
            },
            len,
        ),
        NLast::DayFirst(k) => (0, if (k as int) < starts.len() { starts[k as int] } else { len }),
        NLast::DayNth(k) => (
            starts[k as int],
            if k as int + 1 < starts.len() { starts[k as int + 1] } else { len },
        ),
    }
}

/// Day starts lie within the series and grow strictly.
pub proof fn lemma_day_starts_props(ds: Seq<TimePoint>, n: int)
    requires
        0 <= n <= ds.len(),
    ensures
        forall|k: int| 0 <= k < day_starts_upto(ds, n).len()
            ==> 0 <= #[trigger] day_starts_upto(ds, n)[k] < n,
        forall|k: int| 0 <= k < day_starts_upto(ds, n).len() - 1
            ==> #[trigger] day_starts_upto(ds, n)[k] < day_starts_upto(ds, n)[k + 1],
    decreases n,
{
    if n > 0 {
        lemma_day_starts_props(ds, n - 1);
        let pre = day_starts_upto(ds, n - 1);
        let cur = day_starts_upto(ds, n);
        assert forall|k: int| 0 <= k < cur.len() implies 0 <= #[trigger] cur[k] < n by {
            if k < pre.len() {
                assert(cur[k] == pre[k]);
            } else {
                assert(cur[k] == n - 1);
            }
        }
        assert forall|k: int| 0 <= k < cur.len() - 1 implies #[trigger] cur[k] < cur[k + 1] by {
            if k + 1 < pre.len() {
                assert(cur[k] == pre[k] && cur[k + 1] == pre[k + 1]);
            } else {
                assert(cur[k + 1] == n - 1);
                if k < pre.len() {
                    assert(cur[k] == pre[k]);
                }
            }
        }
    }
}

impl DataInfo {
    /// The dataset cut down to a trailing selection of its base bars.
    /// The `n`-th-day selection requires the series to hold that many
    /// trading days.
    pub fn get_part_last(&self, n: NLast) -> (r: DataInfo)
        requires
            self.wf(),
            n matches NLast::DayNth(k) ==> (k as int) < day_starts_of(dates_of_base(*self)).len(),
        ensures
            r.wf(),
            ({
                let (a, b) = nlast_bounds(dates_of_base(*self), n);
                base_bars(r) == base_bars(*self).subrange(a, b)
            }),
    {
        let ghost ds = dates_of_base(*self);
        let len = self.pcon.price.date_time.len();
        let starts = find_day_starts(&self.pcon.price.date_time);
        proof {
            assert(self.pcon.price.date_time@ =~= ds);
            lemma_day_starts_props(ds, ds.len() as int);
        }
        let (a, b): (usize, usize) = match n {
            NLast::Num(k) => (if k <= len { len - k } else { 0 }, len),
            NLast::Day(k) => (
                if k == 0 {
                    len
                } else if k <= starts.len() {
                    starts[starts.len() - k]
                } else {
                    0
                },
                len,
            ),
            NLast::DayFirst(k) => (0, if k < starts.len() { starts[k] } else { len }),
            NLast::DayNth(k) => (
                starts[k],
                if k < starts.len() - 1 { starts[k + 1] } else { len },
            ),
        };
        proof {
            assert((a as int, b as int) == nlast_bounds(ds, n));
            assert(a <= b <= base_bars(*self).len());
        }
        let r = self.get_part(&Idx::Range(a, b));
        proof {
            assert(base_bars(r) =~= base_bars(*self).subrange(a as int, b as int));
        }
        r
    }
}

/// The timestamps of a dataset's base series.
pub open spec fn dates_of_base(di: DataInfo) -> Seq<TimePoint> {
    di.pcon.price.date_time@
}

/// A selector that expects exactly one match.
#[derive(Clone, Copy, PartialEq, Eq, Structural, Debug)]
pub struct OnlyOne<T>(pub T);

/// A selector that picks by a recorded name.
#[derive(Clone, Copy, PartialEq, Eq, Structural, Debug)]
pub struct StraOnlyName<T>(pub T);

/// The complement of a name selector: everything the name does not pick.
#[derive(Clone, Copy, PartialEq, Eq, Structural, Debug)]
pub struct RevStraOnlyName<T>(pub T);

impl<T> StraOnlyName<T> {
    /// The complementary selector.
    pub fn rev(self) -> (r: RevStraOnlyName<T>)
        ensures
            r == RevStraOnlyName(self.0),
    {
        RevStraOnlyName(self.0)
    }
}

/// Anything with a size in positions.
pub trait HasLen {
    /// How many positions the value covers.
    spec fn spec_size(&self) -> int;

    /// How many positions the value covers.
    fn size(&self) -> (r: usize)
        ensures
            r == self.spec_size(),
    ;
}

impl HasLen for PriceTick {
    open spec fn spec_size(&self) -> int {
        self.ticks().len() as int
    }

    fn size(&self) -> (r: usize) {
        self.date_time.len()
    }
}

impl HasLen for PriceOri {
    open spec fn spec_size(&self) -> int {
        self.bars().len() as int
    }

    fn size(&self) -> (r: usize) {
        self.date_time.len()
    }
}

impl HasLen for PriceArc {
    open spec fn spec_size(&self) -> int {
        self.bars().len() as int
    }

    fn size(&self) -> (r: usize) {
        self.date_time.len()
    }
}

impl HasLen for DataInfo {
    open spec fn spec_size(&self) -> int {
        base_bars(*self).len() as int
    }

    fn size(&self) -> (r: usize) {
        self.len()
    }
}

impl HasLen for DataInfoList {
    open spec fn spec_size(&self) -> int {
        self.dil@.len() as int
    }

    fn size(&self) -> (r: usize) {
        self.dil.len()
    }
}

impl DataInfoList {
    /// The first dataset trading the given ticker, if any.
    pub fn get_idx(&self, idx: OnlyOne<Ticker>) -> (r: Option<&DataInfo>)
        ensures
            (r is Some) == (exists|k: int| 0 <= k < self.dil@.len()
                && (#[trigger] self.dil@[k]).pcon.ticker == idx.0),
            r matches Some(d) ==> exists|k: int| 0 <= k < self.dil@.len()
                && *d == self.dil@[k] && d.pcon.ticker == idx.0
                && (forall|j: int| 0 <= j < k ==> (#[trigger] self.dil@[j]).pcon.ticker != idx.0),
    {
        let n = self.dil.len();
        let mut i: usize = 0;
        while i < n
            invariant
                n == self.dil@.len(),
                i <= n,
                forall|k: int| 0 <= k < i ==> (#[trigger] self.dil@[k]).pcon.ticker != idx.0,
            decreases n - i,
        {
            if self.dil[i].pcon.ticker == idx.0 {
                return Some(&self.dil[i]);
            }
            i = i + 1;
        }
        None
    }
}

use crate::ticker::Ticker;

/// The column layout of a bar file: which column holds each field, the
/// timestamp format, and whether a header row leads.
#[derive(Clone, Copy, Debug)]
pub struct DiReader<T> {
    pub date_time: T,
    pub open: T,
    pub high: T,
    pub low: T,
    pub close: T,
    pub volume: T,
    pub amount: T,
    pub date_time_format: Option<&'static str>,
    pub has_header: bool,
}

/// The column layout of a tick file.
#[derive(Clone, Copy, Debug)]
pub struct TickReader<T> {
    pub date_time: T,
    pub last_price: T,
    pub last_volume: T,
    pub last_amount: T,
    pub ask_price1: T,
    pub bid_price1: T,
    pub ask_volume1: T,
    pub bid_volume1: T,
    pub contract: T,
    pub date_time_format: Option<&'static str>,
    pub has_header: bool,
}

} // verus!
