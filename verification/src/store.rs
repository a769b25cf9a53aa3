//! The time-series store and TWAP engine: price records keyed by
//! trading pair, held in ascending timestamp order, with trailing-window
//! aggregation.
//!
//! The aggregate is an unweighted arithmetic mean of the records in the
//! window, reported as an exact sum and count so that no precision is
//! lost inside the library.
use vstd::prelude::*;

use crate::numeric::{parse_u64, parse_u64_spec};
use crate::spot_entry::{SpotEntry, SpotEntryView};

verus! {

/// One persisted record: the entry and its timestamp parsed as the
/// ordering score.
pub struct StoredRecord {
    pub ts: u64,
    pub entry: SpotEntry,
}

impl View for StoredRecord {
    type V = (u64, SpotEntryView);

    open spec fn view(&self) -> (u64, SpotEntryView) {
        (self.ts, self.entry@)
    }
}

/// The records of one trading pair, in ascending timestamp order.
pub struct PairSeries {
    pair_id: String,
    records: Vec<StoredRecord>,
}

/// The mathematical content of one pair's series.
pub struct PairSeriesView {
    pub pair_id: Seq<char>,
    pub records: Seq<(u64, SpotEntryView)>,
}

impl View for PairSeries {
    type V = PairSeriesView;

    closed spec fn view(&self) -> PairSeriesView {
        PairSeriesView {
            pair_id: self.pair_id@,
            records: self.records@.map_values(|r: StoredRecord| r@),
        }
    }
}

/// The in-memory time-series store: one ordered record collection per
/// trading pair.
pub struct PriceStore {
    series: Vec<PairSeries>,
}

impl View for PriceStore {
    type V = Seq<PairSeriesView>;

    closed spec fn view(&self) -> Seq<PairSeriesView> {
        self.series@.map_values(|s: PairSeries| s@)
    }
}

/// A failure to persist a record.
#[derive(PartialEq, Eq, Structural, Clone, Copy, Debug)]
pub enum StoreError {
    /// The record's timestamp text does not parse as a number.
    InvalidTimestamp,
}

/// Whether some series in `v` belongs to `pair`.
pub open spec fn has_pair(v: Seq<PairSeriesView>, pair: Seq<char>) -> bool
    decreases v.len(),
{
    if v.len() == 0 {
        false
    } else if v[0].pair_id == pair {
        true
    } else {
        has_pair(v.drop_first(), pair)
    }
}

/// The records stored for `pair`, empty when the pair is unknown.
pub open spec fn pair_records(v: Seq<PairSeriesView>, pair: Seq<char>) -> Seq<
    (u64, SpotEntryView),
>
    decreases v.len(),
{
    if v.len() == 0 {
        Seq::empty()
    } else if v[0].pair_id == pair {
        v[0].records
    } else {
        pair_records(v.drop_first(), pair)
    }
}

/// Timestamps never decrease along the sequence.
pub open spec fn sorted_by_ts(s: Seq<(u64, SpotEntryView)>) -> bool {
    forall|i: int, j: int| 0 <= i < j < s.len() ==> (#[trigger] s[i]).0 <= (#[trigger] s[j]).0
}

/// Every record's score is the parsed value of its timestamp text.
pub open spec fn ts_consistent(s: Seq<(u64, SpotEntryView)>) -> bool {
    forall|i: int|
        0 <= i < s.len() ==> parse_u64_spec((#[trigger] s[i]).1.timestamp) == Some(s[i].0)
}

/// No two series belong to the same pair.
pub open spec fn unique_pairs(v: Seq<PairSeriesView>) -> bool {
    forall|i: int, j: int|
        0 <= i < j < v.len() ==> (#[trigger] v[i]).pair_id != (#[trigger] v[j]).pair_id
}

/// The position a record with score `ts` is inserted at: after every
/// record whose score is no greater, so equal scores keep arrival order.
pub open spec fn insert_pos(s: Seq<(u64, SpotEntryView)>, ts: u64) -> int
    decreases s.len(),
{
    if s.len() == 0 {
        0
    } else if s[0].0 <= ts {
        1 + insert_pos(s.drop_first(), ts)
    } else {
        0
    }
}

/// `s` with a record of score `ts` and content `e` inserted in order.
pub open spec fn insert_sorted(s: Seq<(u64, SpotEntryView)>, ts: u64, e: SpotEntryView) -> Seq<
    (u64, SpotEntryView),
> {
    s.insert(insert_pos(s, ts), (ts, e))
}

pub proof fn lemma_insert_pos_bounds(s: Seq<(u64, SpotEntryView)>, ts: u64)
    ensures
        0 <= insert_pos(s, ts) <= s.len(),
        forall|j: int| 0 <= j < insert_pos(s, ts) ==> (#[trigger] s[j]).0 <= ts,
        insert_pos(s, ts) < s.len() ==> s[insert_pos(s, ts)].0 > ts,
    decreases s.len(),
{
    if s.len() > 0 {
        lemma_insert_pos_bounds(s.drop_first(), ts);
        assert(forall|j: int| 0 <= j < s.len() - 1 ==> #[trigger] s.drop_first()[j] == s[j + 1]);
        if s[0].0 <= ts {
            let p = insert_pos(s, ts);
            assert(p == 1 + insert_pos(s.drop_first(), ts));
            assert(forall|j: int| 1 <= j < p ==> (#[trigger] s[j]).0 == s.drop_first()[j - 1].0);
        }
    }
}

/// Inserting in order keeps the order, the score consistency, and grows
/// the sequence by exactly the one record.
pub proof fn lemma_insert_sorted(s: Seq<(u64, SpotEntryView)>, ts: u64, e: SpotEntryView)
    requires
        sorted_by_ts(s),
        ts_consistent(s),
        parse_u64_spec(e.timestamp) == Some(ts),
    ensures
        sorted_by_ts(insert_sorted(s, ts, e)),
        ts_consistent(insert_sorted(s, ts, e)),
        insert_sorted(s, ts, e).len() == s.len() + 1,
        insert_sorted(s, ts, e)[insert_pos(s, ts)] == (ts, e),
{
    lemma_insert_pos_bounds(s, ts);
    let p = insert_pos(s, ts);
    let t = insert_sorted(s, ts, e);
    assert(t =~= s.subrange(0, p).push((ts, e)) + s.subrange(p, s.len() as int));
    assert(forall|j: int| 0 <= j < p ==> #[trigger] t[j] == s[j]);
    assert(t[p] == (ts, e));
    assert(forall|j: int| p < j < t.len() ==> #[trigger] t[j] == s[j - 1]);
    assert forall|i: int, j: int| 0 <= i < j < t.len() implies (#[trigger] t[i]).0 <= (
    #[trigger] t[j]).0 by {
        if i < p && j < p {
        } else if i == p && j > p {
            assert(s[j - 1].0 >= s[p].0 > ts);
        } else if i < p && j == p {
            assert(s[i].0 <= ts);
        } else if j > p && i > p {
        } else if j > p && i < p {
            assert(s[i].0 <= ts && s[j - 1].0 >= s[p].0 > ts);
        }
    }
}

pub proof fn lemma_absent_pair_empty(v: Seq<PairSeriesView>, pair: Seq<char>)
    requires
        !has_pair(v, pair),
    ensures
        pair_records(v, pair) == Seq::<(u64, SpotEntryView)>::empty(),
    decreases v.len(),
{
    if v.len() > 0 {
        lemma_absent_pair_empty(v.drop_first(), pair);
    }
}

/// Looking a pair up finds the series that carries it.
pub proof fn lemma_pair_records_index(v: Seq<PairSeriesView>, pair: Seq<char>, i: int)
    requires
        unique_pairs(v),
        0 <= i < v.len(),
        v[i].pair_id == pair,
    ensures
        has_pair(v, pair),
        pair_records(v, pair) == v[i].records,
    decreases v.len(),
{
    if i > 0 {
        assert(v[0].pair_id != pair);
        let w = v.drop_first();
        assert(forall|j: int| 0 <= j < w.len() ==> #[trigger] w[j] == v[j + 1]);
        lemma_pair_records_index(w, pair, i - 1);
    }
}

/// A full scan that finds no series for a pair shows the pair absent.
pub proof fn lemma_no_pair(v: Seq<PairSeriesView>, pair: Seq<char>)
    requires
        forall|i: int| 0 <= i < v.len() ==> (#[trigger] v[i]).pair_id != pair,
    ensures
        !has_pair(v, pair),
    decreases v.len(),
{
    if v.len() > 0 {
        let w = v.drop_first();
        assert(forall|j: int| 0 <= j < w.len() ==> #[trigger] w[j] == v[j + 1]);
        lemma_no_pair(w, pair);
    }
}

/// Replacing one series, keeping its pair, rewrites that pair's records
/// and no other's.
pub proof fn lemma_pair_records_update(
    v: Seq<PairSeriesView>,
    k: int,
    x: PairSeriesView,
    pair: Seq<char>,
)
    requires
        unique_pairs(v),
        0 <= k < v.len(),
        x.pair_id == v[k].pair_id,
    ensures
        pair_records(v.update(k, x), pair) == if pair == x.pair_id {
            x.records
        } else {
            pair_records(v, pair)
        },
        has_pair(v.update(k, x), pair) == has_pair(v, pair),
    decreases v.len(),
{
    let w = v.update(k, x);
    if k == 0 {
        assert(w[0] == x);
        assert(w.drop_first() =~= v.drop_first());
        if pair == x.pair_id {
        } else {
            assert(v[0].pair_id == x.pair_id);
        }
    } else {
        assert(w[0] == v[0]);
        assert(w.drop_first() =~= v.drop_first().update(k - 1, x));
        assert(forall|j: int|
            0 <= j < v.len() - 1 ==> #[trigger] v.drop_first()[j] == v[j + 1]);
        lemma_pair_records_update(v.drop_first(), k - 1, x, pair);
        if pair == v[0].pair_id {
            assert(v[0].pair_id != x.pair_id);
        }
    }
}

/// Appending a series for a new pair adds that pair's records and
/// leaves every other pair's untouched.
pub proof fn lemma_pair_records_push(v: Seq<PairSeriesView>, x: PairSeriesView, pair: Seq<char>)
    requires
        !has_pair(v, x.pair_id),
    ensures
        pair_records(v.push(x), pair) == if pair == x.pair_id {
            x.records
        } else {
            pair_records(v, pair)
        },
        has_pair(v.push(x), pair) == (has_pair(v, pair) || pair == x.pair_id),
    decreases v.len(),
{
    let w = v.push(x);
    if v.len() == 0 {
        assert(w.len() == 1);
        assert(w[0] == x);
        assert(w.drop_first() =~= Seq::<PairSeriesView>::empty());
        if pair == x.pair_id {
            assert(has_pair(w, pair));
            assert(pair_records(w, pair) == x.records);
        } else {
            assert(has_pair(Seq::<PairSeriesView>::empty(), pair) == false);
            assert(pair_records(Seq::<PairSeriesView>::empty(), pair) == Seq::<(u64,
            SpotEntryView)>::empty());
            assert(!has_pair(w, pair));
            assert(pair_records(w, pair) == pair_records(w.drop_first(), pair));
            assert(pair_records(v, pair) == Seq::<(u64, SpotEntryView)>::empty());
        }
    } else {
        assert(w[0] == v[0]);
        assert(w.drop_first() =~= v.drop_first().push(x));
        assert(v[0].pair_id != x.pair_id);
        assert(!has_pair(v.drop_first(), x.pair_id));
        lemma_pair_records_push(v.drop_first(), x, pair);
        if pair == v[0].pair_id {
            assert(pair_records(w, pair) == w[0].records);
            assert(has_pair(w, pair) && has_pair(v, pair));
        } else {
            assert(pair_records(w, pair) == pair_records(w.drop_first(), pair));
            assert(pair_records(v, pair) == pair_records(v.drop_first(), pair));
            assert(has_pair(w, pair) == has_pair(w.drop_first(), pair));
            assert(has_pair(v, pair) == has_pair(v.drop_first(), pair));
        }
    }
}

impl PriceStore {
    /// Every pair occurs once, every series is ordered by timestamp,
    /// and every score is the parsed timestamp of its record.
    pub open spec fn wf(&self) -> bool {
        &&& unique_pairs(self@)
        &&& forall|k: int|
            0 <= k < self@.len() ==> sorted_by_ts((#[trigger] self@[k]).records)
        &&& forall|k: int|
            0 <= k < self@.len() ==> ts_consistent((#[trigger] self@[k]).records)
    }

    /// An empty store.
    pub fn new() -> (r: PriceStore)
        ensures
            r.wf(),
            r@ == Seq::<PairSeriesView>::empty(),
    {
        let r = PriceStore { series: Vec::new() };
        proof {
            assert(r@ =~= Seq::<PairSeriesView>::empty());
        }
        r
    }

    /// Finds the series of a pair, when the store holds one.
    fn find_series_index(&self, pair_id: &String) -> (r: Option<usize>)
        ensures
            match r {
                Some(i) => i < self@.len() && self@[i as int].pair_id == pair_id@,
                None => !has_pair(self@, pair_id@),
            },
    {
        let mut i: usize = 0;
        while i < self.series.len()
            invariant
                i <= self@.len(),
                self@.len() == self.series@.len(),
                forall|j: int| 0 <= j < i ==> (#[trigger] self@[j]).pair_id != pair_id@,
            decreases self@.len() - i,
        {
            if self.series[i].pair_id == *pair_id {
                return Some(i);
            }
            i = i + 1;
        }
        proof {
            lemma_no_pair(self@, pair_id@);
        }
        None
    }

    /// Appends `entry` into the ordered collection of its pair, scored
    /// by its parsed timestamp. Fails exactly when the timestamp text
    /// does not parse as a number, and then changes nothing. The same
    /// record stored twice yields two stored records, not one.
    pub fn store(&mut self, entry: SpotEntry) -> (r: Result<(), StoreError>)
        requires
            old(self).wf(),
        ensures
            final(self).wf(),
            match r {
                Ok(()) => parse_u64_spec(entry@.timestamp) matches Some(ts) && {
                    &&& pair_records(final(self)@, entry@.pair_id) == insert_sorted(
                        pair_records(old(self)@, entry@.pair_id),
                        ts,
                        entry@,
                    )
                    &&& forall|p: Seq<char>|
                        p != entry@.pair_id ==> #[trigger] pair_records(final(self)@, p)
                            == pair_records(old(self)@, p)
                },
                Err(StoreError::InvalidTimestamp) => parse_u64_spec(entry@.timestamp) is None
                    && final(self)@ == old(self)@,
            },
    {
        let ts = match parse_u64(entry.timestamp.as_str()) {
            Some(ts) => ts,
            None => {
                return Err(StoreError::InvalidTimestamp);
            },
        };
        match self.find_series_index(&entry.pair_id) {
            Some(k) => {
                let ghost v0 = self@;
                let ghost old_series = self@[k as int];
                let ghost entry_view = entry@;
                let mut s = self.series.remove(k);
                let pos = Self::find_insert_pos(&s.records, ts);
                let ghost old_records = s@.records;
                let ghost old_vec = s.records@;
                proof {
                    lemma_insert_pos_bounds(old_records, ts);
                    assert(old_records.len() == old_vec.len());
                }
                s.records.insert(pos, StoredRecord { ts, entry });
                proof {
                    let merged = old_records.insert(pos as int, (ts, entry_view));
                    assert(s@.records =~= merged) by {
                        assert(s.records@.len() == old_vec.len() + 1);
                        assert forall|j: int| 0 <= j < s@.records.len() implies s@.records[j]
                            == merged[j] by {
                            if j < pos {
                                assert(s.records@[j] == old_vec[j]);
                            } else if j > pos {
                                assert(s.records@[j] == old_vec[j - 1]);
                            }
                        }
                    }
                }
                self.series.insert(k, s);
                proof {
                    let vN = self@;
                    assert(vN =~= v0.update(k as int, s@)) by {
                        assert(vN.len() == v0.len());
                        assert(forall|j: int|
                            0 <= j < k ==> #[trigger] vN[j] == v0[j]);
                        assert(vN[k as int] == s@);
                        assert(forall|j: int|
                            k < j < vN.len() ==> #[trigger] vN[j] == v0[j]);
                    }
                    assert(s@.pair_id == old_series.pair_id);
                    assert(old_records == old_series.records);
                    lemma_pair_records_index(v0, entry_view.pair_id, k as int);
                    assert(old_records == pair_records(v0, entry_view.pair_id));
                    lemma_insert_sorted(old_records, ts, entry_view);
                    assert(s@.records == insert_sorted(old_records, ts, entry_view));
                    assert forall|p: Seq<char>| true implies #[trigger] pair_records(vN, p)
                        == if p == s@.pair_id {
                        s@.records
                    } else {
                        pair_records(v0, p)
                    } by {
                        lemma_pair_records_update(v0, k as int, s@, p);
                    }
                    assert(unique_pairs(vN));
                    assert forall|j: int|
                        0 <= j < vN.len() implies sorted_by_ts((#[trigger] vN[j]).records)
                        && ts_consistent(vN[j].records) by {
                        if j != k {
                            assert(vN[j] == v0[j]);
                        }
                    }
                }
                Ok(())
            },
            None => {
                let ghost v0 = self@;
                let pair_id = entry.pair_id.clone();
                let ghost entry_view = entry@;
                let mut records: Vec<StoredRecord> = Vec::new();
                records.push(StoredRecord { ts, entry });
                let s = PairSeries { pair_id, records };
                proof {
                    assert(s@.records =~= seq![(ts, entry_view)]);
                    assert(s@.pair_id == entry_view.pair_id);
                }
                self.series.push(s);
                proof {
                    let vN = self@;
                    assert(vN =~= v0.push(s@)) by {
                        assert(vN.len() == v0.len() + 1);
                        assert(forall|j: int|
                            0 <= j < v0.len() ==> #[trigger] vN[j] == v0[j]);
                        assert(vN[v0.len() as int] == s@);
                    }
                    lemma_absent_pair_empty(v0, entry_view.pair_id);
                    assert(insert_sorted(Seq::empty(), ts, entry_view) =~= seq![(ts, entry_view)]);
                    assert forall|p: Seq<char>| true implies #[trigger] pair_records(vN, p)
                        == if p == entry_view.pair_id {
                        s@.records
                    } else {
                        pair_records(v0, p)
                    } by {
                        lemma_pair_records_push(v0, s@, p);
                    }
                    assert forall|i: int, j: int|
                        0 <= i < j < vN.len() implies (#[trigger] vN[i]).pair_id != (
                    #[trigger] vN[j]).pair_id by {
                        if j == v0.len() {
                            lemma_pair_records_index(v0, v0[i].pair_id, i);
                        }
                    }
                    assert forall|j: int|
                        0 <= j < vN.len() implies sorted_by_ts((#[trigger] vN[j]).records)
                        && ts_consistent(vN[j].records) by {
                        if j < v0.len() {
                            assert(vN[j] == v0[j]);
                        } else {
                            assert(vN[j] == s@);
                        }
                    }
                }
                Ok(())
            },
        }
    }

    /// Finds the stable insertion position for score `ts`.
    fn find_insert_pos(records: &Vec<StoredRecord>, ts: u64) -> (r: usize)
        ensures
            r == insert_pos(records@.map_values(|x: StoredRecord| x@), ts),
    {
        let ghost s = records@.map_values(|x: StoredRecord| x@);
        let mut i: usize = 0;
        while i < records.len()
            invariant
                i <= s.len(),
                s == records@.map_values(|x: StoredRecord| x@),
                s.len() == records@.len(),
                forall|j: int| 0 <= j < i ==> (#[trigger] s[j]).0 <= ts,
            decreases s.len() - i,
        {
            if records[i].ts > ts {
                proof {
                    lemma_insert_pos_at(s, ts, i as int);
                }
                return i;
            }
            i = i + 1;
        }
        proof {
            lemma_insert_pos_at(s, ts, s.len() as int);
        }
        i
    }
}

/// Whether a score lies in the queried range: inside the inclusive
/// bounds when both are given, everywhere otherwise.
pub open spec fn in_window(ts: u64, start_time: Option<u64>, end_time: Option<u64>) -> bool {
    match (start_time, end_time) {
        (Some(a), Some(b)) => a <= ts && ts <= b,
        _ => true,
    }
}

/// The records of `s` whose score lies in the range, in stored order.
pub open spec fn filter_window(
    s: Seq<(u64, SpotEntryView)>,
    start_time: Option<u64>,
    end_time: Option<u64>,
) -> Seq<(u64, SpotEntryView)>
    decreases s.len(),
{
    if s.len() == 0 {
        Seq::empty()
    } else {
        let rest = filter_window(s.drop_last(), start_time, end_time);
        if in_window(s.last().0, start_time, end_time) {
            rest.push(s.last())
        } else {
            rest
        }
    }
}

/// One step of the window filter: extending the prefix by one record
/// appends it exactly when its score lies in the range.
pub proof fn lemma_filter_window_step(
    s: Seq<(u64, SpotEntryView)>,
    i: int,
    start_time: Option<u64>,
    end_time: Option<u64>,
)
    requires
        0 <= i < s.len(),
    ensures
        filter_window(s.take(i + 1), start_time, end_time) == if in_window(
            s[i].0,
            start_time,
            end_time,
        ) {
            filter_window(s.take(i), start_time, end_time).push(s[i])
        } else {
            filter_window(s.take(i), start_time, end_time)
        },
{
    assert(s.take(i + 1).drop_last() =~= s.take(i));
    assert(s.take(i + 1).last() == s[i]);
    assert(s.take(i + 1).len() == i + 1);
}

/// One step of the price sum.
pub proof fn lemma_sum_prices_push(f: Seq<(u64, SpotEntryView)>, x: (u64, SpotEntryView))
    ensures
        sum_prices(f.push(x)) == sum_prices(f) + price_of(x.1),
{
    assert(f.push(x).drop_last() =~= f);
    assert(f.push(x).last() == x);
}

/// The price a record contributes: its price text parsed as a number,
/// zero when the text does not parse.
pub open spec fn price_of(v: SpotEntryView) -> u64 {
    match parse_u64_spec(v.price) {
        Some(p) => p,
        None => 0,
    }
}

/// The sum of the prices the records contribute.
pub open spec fn sum_prices(s: Seq<(u64, SpotEntryView)>) -> int
    decreases s.len(),
{
    if s.len() == 0 {
        0
    } else {
        sum_prices(s.drop_last()) + price_of(s.last().1)
    }
}

/// The window start for a trailing window of `period` seconds ending at
/// `now`, clamped at zero.
pub open spec fn window_start(now: u64, period: u64) -> u64 {
    if period <= now {
        (now - period) as u64
    } else {
        0
    }
}

/// A TWAP window aggregate: the exact sum of the prices in the window,
/// and how many records the window held.
pub struct TwapValue {
    pub sum: u128,
    pub count: u64,
}

impl TwapValue {
    /// The arithmetic mean of the window, truncated to an integer: the
    /// value the signing service attests.
    pub fn mean_floor(&self) -> (r: u64)
        requires
            self.count > 0,
            self.sum <= self.count * 0xffff_ffff_ffff_ffff,
        ensures
            r == self.sum as int / self.count as int,
    {
        proof {
            assert(self.sum as int / self.count as int <= 0xffff_ffff_ffff_ffff) by (nonlinear_arith)
                requires
                    self.count > 0,
                    self.sum <= self.count * 0xffff_ffff_ffff_ffff,
            ;
            assert(self.sum as int / self.count as int >= 0) by (nonlinear_arith)
                requires
                    self.count > 0,
                    self.sum >= 0,
            ;
        }
        (self.sum / (self.count as u128)) as u64
    }
}

impl PriceStore {
    /// Returns copies of the records stored for the pair whose score
    /// falls in the inclusive range, or of all of them when no full
    /// range is given, in ascending timestamp order.
    pub fn query(&self, pair_id: &str, start_time: Option<u64>, end_time: Option<u64>) -> (r: Vec<
        SpotEntry,
    >)
        requires
            self.wf(),
        ensures
            r@.map_values(|e: SpotEntry| e@) == filter_window(
                pair_records(self@, pair_id@),
                start_time,
                end_time,
            ).map_values(|p: (u64, SpotEntryView)| p.1),
    {
        let key: String = pair_id.to_owned();
        let ghost records = pair_records(self@, pair_id@);
        let mut r: Vec<SpotEntry> = Vec::new();
        let k = match self.find_series_index(&key) {
            Some(k) => k,
            None => {
                proof {
                    lemma_absent_pair_empty(self@, pair_id@);
                    assert(r@.map_values(|e: SpotEntry| e@) =~= filter_window(
                        records,
                        start_time,
                        end_time,
                    ).map_values(|p: (u64, SpotEntryView)| p.1));
                }
                return r;
            },
        };
        proof {
            lemma_pair_records_index(self@, pair_id@, k as int);
        }
        let series = &self.series[k];
        proof {
            assert(series@ == self@[k as int]);
            assert(series@.records == records);
        }
        let mut i: usize = 0;
        while i < series.records.len()
            invariant
                i <= series.records@.len(),
                records == series@.records,
                series@.records == series.records@.map_values(|x: StoredRecord| x@),
                r@.map_values(|e: SpotEntry| e@) == filter_window(
                    records.take(i as int),
                    start_time,
                    end_time,
                ).map_values(|p: (u64, SpotEntryView)| p.1),
            decreases series.records@.len() - i,
        {
            let record = &series.records[i];
            proof {
                assert(records[i as int] == record@);
                lemma_filter_window_step(records, i as int, start_time, end_time);
            }
            let ghost f0 = filter_window(records.take(i as int), start_time, end_time);
            if Self::ts_in_window(record.ts, start_time, end_time) {
                let duplicated = record.entry.duplicate();
                let ghost duplicated_view = duplicated@;
                let ghost r0 = r@;
                r.push(duplicated);
                proof {
                    assert(in_window(records[i as int].0, start_time, end_time));
                    let f1 = f0.push(records[i as int]);
                    assert(filter_window(records.take(i + 1), start_time, end_time) == f1);
                    let lhs = r@.map_values(|e: SpotEntry| e@);
                    let rhs = f1.map_values(|p: (u64, SpotEntryView)| p.1);
                    assert(lhs.len() == r0.len() + 1 && rhs.len() == f0.len() + 1);
                    assert(r0.map_values(|e: SpotEntry| e@).len() == f0.map_values(
                        |p: (u64, SpotEntryView)| p.1,
                    ).len());
                    assert forall|j: int| 0 <= j < lhs.len() implies lhs[j] == rhs[j] by {
                        if j < r0.len() {
                            assert(r@[j] == r0[j]);
                            assert(f1[j] == f0[j]);
                            assert(r0.map_values(|e: SpotEntry| e@)[j] == f0.map_values(
                                |p: (u64, SpotEntryView)| p.1,
                            )[j]);
                        } else {
                            assert(r@[j] == duplicated);
                            assert(f1[j] == records[i as int]);
                            assert(duplicated_view == records[i as int].1);
                        }
                    }
                    assert(lhs =~= rhs);
                }
            }
            i = i + 1;
        }
        proof {
            assert(records.take(records.len() as int) =~= records);
        }
        r
    }

    /// Whether a score lies in the queried range.
    fn ts_in_window(ts: u64, start_time: Option<u64>, end_time: Option<u64>) -> (r: bool)
        ensures
            r == in_window(ts, start_time, end_time),
    {
        match (start_time, end_time) {
            (Some(a), Some(b)) => a <= ts && ts <= b,
            _ => true,
        }
    }

    /// Computes the trailing-window TWAP for a pair: considers exactly
    /// the records with `now - period <= timestamp <= now`, returns
    /// nothing when the window holds no record, and otherwise the exact
    /// sum and count of the window's prices, each parsed as a number
    /// and contributing zero when unparseable.
    pub fn compute_twap(&self, pair_id: &str, period: u64, now: u64) -> (r: Option<TwapValue>)
        requires
            self.wf(),
        ensures
            ({
                let window = filter_window(
                    pair_records(self@, pair_id@),
                    Some(window_start(now, period)),
                    Some(now),
                );
                match r {
                    Some(t) => window.len() > 0 && t.count == window.len() && t.sum == sum_prices(
                        window,
                    ) && t.sum <= t.count * 0xffff_ffff_ffff_ffff,
                    None => window.len() == 0,
                }
            }),
    {
        let start_time: u64 = if period <= now {
            now - period
        } else {
            0
        };
        let key: String = pair_id.to_owned();
        let ghost records = pair_records(self@, pair_id@);
        let ghost window = filter_window(records, Some(window_start(now, period)), Some(now));
        let k = match self.find_series_index(&key) {
            Some(k) => k,
            None => {
                proof {
                    lemma_absent_pair_empty(self@, pair_id@);
                    assert(window =~= Seq::<(u64, SpotEntryView)>::empty());
                }
                return None;
            },
        };
        proof {
            lemma_pair_records_index(self@, pair_id@, k as int);
        }
        let series = &self.series[k];
        proof {
            assert(series@ == self@[k as int]);
            assert(series@.records == records);
        }
        let mut sum: u128 = 0;
        let mut count: u64 = 0;
        let mut i: usize = 0;
        while i < series.records.len()
            invariant
                i <= series.records@.len(),
                start_time == window_start(now, period),
                records == series@.records,
                series@.records == series.records@.map_values(|x: StoredRecord| x@),
                count == filter_window(
                    records.take(i as int),
                    Some(window_start(now, period)),
                    Some(now),
                ).len(),
                sum == sum_prices(
                    filter_window(
                        records.take(i as int),
                        Some(window_start(now, period)),
                        Some(now),
                    ),
                ),
                sum <= count * 0xffff_ffff_ffff_ffff,
                count <= i,
            decreases series.records@.len() - i,
        {
            let record = &series.records[i];
            proof {
                assert(records[i as int] == record@);
                lemma_filter_window_step(records, i as int, Some(start_time), Some(now));
            }
            let ghost f0 = filter_window(records.take(i as int), Some(start_time), Some(now));
            if Self::ts_in_window(record.ts, Some(start_time), Some(now)) {
                let price: u64 = match parse_u64(record.entry.price.as_str()) {
                    Some(p) => p,
                    None => 0,
                };
                proof {
                    assert(price == price_of(record@.1));
                    lemma_sum_prices_push(f0, records[i as int]);
                    assert(filter_window(records.take(i + 1), Some(start_time), Some(now))
                        == f0.push(records[i as int]));
                }
                sum = sum + price as u128;
                count = count + 1;
            }
            i = i + 1;
        }
        proof {
            assert(records.take(records.len() as int) =~= records);
        }
        if count == 0 {
            proof {
                assert(window.len() == 0);
            }
            None
        } else {
            Some(TwapValue { sum, count })
        }
    }
}

/// TWAP window law: a record whose timestamp lies outside the inclusive
/// window does not affect what the window holds, wherever it is
/// inserted.
pub proof fn lemma_twap_ignores_outside(
    s: Seq<(u64, SpotEntryView)>,
    x: (u64, SpotEntryView),
    k: int,
    start_time: u64,
    end_time: u64,
)
    requires
        0 <= k <= s.len(),
        !(start_time <= x.0 && x.0 <= end_time),
    ensures
        filter_window(s.insert(k, x), Some(start_time), Some(end_time)) == filter_window(
            s,
            Some(start_time),
            Some(end_time),
        ),
    decreases s.len(),
{
    let t = s.insert(k, x);
    if k == s.len() {
        assert(t =~= s.push(x));
        assert(t.drop_last() =~= s);
        assert(t.last() == x);
    } else {
        assert(t.drop_last() =~= s.drop_last().insert(k, x));
        assert(t.last() == s.last());
        lemma_twap_ignores_outside(s.drop_last(), x, k, start_time, end_time);
    }
}

/// TWAP window law composed with the store: persisting a record whose
/// timestamp lies outside the trailing window leaves the window's
/// aggregate unchanged.
pub proof fn lemma_store_outside_window_preserves_twap(
    s: Seq<(u64, SpotEntryView)>,
    ts: u64,
    e: SpotEntryView,
    period: u64,
    now: u64,
)
    requires
        !(window_start(now, period) <= ts && ts <= now),
    ensures
        filter_window(insert_sorted(s, ts, e), Some(window_start(now, period)), Some(now))
            == filter_window(s, Some(window_start(now, period)), Some(now)),
{
    lemma_insert_pos_bounds(s, ts);
    lemma_twap_ignores_outside(s, (ts, e), insert_pos(s, ts), window_start(now, period), now);
}

/// TWAP window law: the aggregate is a function of the window's records
/// alone; stores that agree on the window agree on the TWAP.
pub proof fn lemma_twap_window_determined(
    s1: Seq<(u64, SpotEntryView)>,
    s2: Seq<(u64, SpotEntryView)>,
    start_time: Option<u64>,
    end_time: Option<u64>,
)
    requires
        filter_window(s1, start_time, end_time) == filter_window(s2, start_time, end_time),
    ensures
        sum_prices(filter_window(s1, start_time, end_time)) == sum_prices(
            filter_window(s2, start_time, end_time),
        ),
        filter_window(s1, start_time, end_time).len() == filter_window(
            s2,
            start_time,
            end_time,
        ).len(),
{
}

/// Ordered input filters to ordered output: query results come back in
/// ascending timestamp order.
pub proof fn lemma_filter_window_sorted(
    s: Seq<(u64, SpotEntryView)>,
    start_time: Option<u64>,
    end_time: Option<u64>,
)
    requires
        sorted_by_ts(s),
    ensures
        sorted_by_ts(filter_window(s, start_time, end_time)),
        forall|k: int|
            0 <= k < filter_window(s, start_time, end_time).len() ==> s.len() > 0 && (
            #[trigger] filter_window(s, start_time, end_time)[k]).0 <= s.last().0,
    decreases s.len(),
{
    if s.len() > 0 {
        let p = s.drop_last();
        assert(forall|i: int| 0 <= i < p.len() ==> #[trigger] p[i] == s[i]);
        lemma_filter_window_sorted(p, start_time, end_time);
        let f = filter_window(s, start_time, end_time);
        let g = filter_window(p, start_time, end_time);
        if p.len() > 0 {
            assert(p.last().0 <= s.last().0);
        }
        if in_window(s.last().0, start_time, end_time) {
            assert(f =~= g.push(s.last()));
            assert forall|i: int, j: int| 0 <= i < j < f.len() implies (#[trigger] f[i]).0 <= (
            #[trigger] f[j]).0 by {
                if j < f.len() - 1 {
                    assert(f[i] == g[i] && f[j] == g[j]);
                } else {
                    assert(f[j] == s.last());
                    assert(f[i] == g[i]);
                }
            }
        }
    }
}

/// The insertion position is the first place whose score exceeds `ts`.
proof fn lemma_insert_pos_at(s: Seq<(u64, SpotEntryView)>, ts: u64, i: int)
    requires
        0 <= i <= s.len(),
        forall|j: int| 0 <= j < i ==> (#[trigger] s[j]).0 <= ts,
        i < s.len() ==> s[i].0 > ts,
    ensures
        insert_pos(s, ts) == i,
    decreases s.len(),
{
    if s.len() > 0 {
        if i == 0 {
        } else {
            assert(s[0].0 <= ts);
            let w = s.drop_first();
            assert(forall|j: int| 0 <= j < w.len() ==> #[trigger] w[j] == s[j + 1]);
            lemma_insert_pos_at(w, ts, i - 1);
        }
    }
}

} // verus!
