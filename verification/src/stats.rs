//! Usage statistics of a day, a week or a month, built from the stored daily
//! records, and the screen-time figures built the same way.
use vstd::prelude::*;
use crate::models::{
    DailyEyeTime, DailyStat, DateRange, EyeTimeDailyResult, EyeTimeRangeResult, RangeStatsResult,
    StatsResult,
};
use crate::tally::{
    amount_of, amounts_total, distinct_keys, has_key, key_total, lemma_amount_of_tally, lemma_tally,
    lemma_tally_sum, pairs_view, sat, tally, tally_spec,
};

verus! {

// ==================== sums over records ====================

/// The sum of all hourly figures of a record.
pub open spec fn row_sum(h: Seq<u64>) -> int
    decreases h.len(),
{
    if h.len() == 0 {
        0
    } else {
        row_sum(h.drop_last()) + h.last() as int
    }
}

/// Changing one hour of a record changes its sum by exactly that change: every
/// hour, the last one included, counts once in the sum.
pub proof fn lemma_row_sum_update(h: Seq<u64>, i: int, v: u64)
    requires
        0 <= i < h.len(),
    ensures
        row_sum(h.update(i, v)) == row_sum(h) - h[i] + v,
    decreases h.len(),
{
    let u = h.update(i, v);
    if i == h.len() - 1 {
        assert(u.drop_last() =~= h.drop_last());
    } else {
        assert(u.drop_last() =~= h.drop_last().update(i, v));
        lemma_row_sum_update(h.drop_last(), i, v);
    }
}

/// The sum of a record is at least each of its hours.
pub proof fn lemma_row_sum_covers(h: Seq<u64>, i: int)
    requires
        0 <= i < h.len(),
    ensures
        h[i] <= row_sum(h),
    decreases h.len(),
{
    lemma_row_sum_nonneg(h.drop_last());
    if i < h.len() - 1 {
        lemma_row_sum_covers(h.drop_last(), i);
    }
}

/// The figure of hour `i`, 0 where the record has none.
pub open spec fn hour_value(h: Seq<u64>, i: int) -> int {
    if 0 <= i < h.len() {
        h[i] as int
    } else {
        0
    }
}

/// Hour `i` summed over all records.
pub open spec fn hour_total(rows: Seq<DailyStat>, i: int) -> int
    decreases rows.len(),
{
    if rows.len() == 0 {
        0
    } else {
        hour_total(rows.drop_last(), i) + hour_value(rows.last().hourly_usage@, i)
    }
}

/// Hour `i` summed over the records of app `app`.
pub open spec fn app_hour_total(rows: Seq<DailyStat>, app: Seq<char>, i: int) -> int
    decreases rows.len(),
{
    if rows.len() == 0 {
        0
    } else {
        app_hour_total(rows.drop_last(), app, i) + if rows.last().app_name@ == app {
            hour_value(rows.last().hourly_usage@, i)
        } else {
            0
        }
    }
}

/// Everything, summed over all records.
pub open spec fn grand_total(rows: Seq<DailyStat>) -> int
    decreases rows.len(),
{
    if rows.len() == 0 {
        0
    } else {
        grand_total(rows.drop_last()) + row_sum(rows.last().hourly_usage@)
    }
}

/// (app, record total) for each record with some usage.
pub open spec fn app_items(rows: Seq<DailyStat>) -> Seq<(Seq<char>, u64)>
    decreases rows.len(),
{
    if rows.len() == 0 {
        seq![]
    } else {
        let r = app_items(rows.drop_last());
        let t = row_sum(rows.last().hourly_usage@);
        if t > 0 {
            r.push((rows.last().app_name@, sat(t) as u64))
        } else {
            r
        }
    }
}

/// (date, record total) for each record with some usage.
pub open spec fn date_items(rows: Seq<DailyStat>) -> Seq<(Seq<char>, u64)>
    decreases rows.len(),
{
    if rows.len() == 0 {
        seq![]
    } else {
        let r = date_items(rows.drop_last());
        let t = row_sum(rows.last().hourly_usage@);
        if t > 0 {
            r.push((rows.last().date@, sat(t) as u64))
        } else {
            r
        }
    }
}

/// (date, record total) for each record of app `app` with some usage.
pub open spec fn app_date_items(rows: Seq<DailyStat>, app: Seq<char>) -> Seq<(Seq<char>, u64)>
    decreases rows.len(),
{
    if rows.len() == 0 {
        seq![]
    } else {
        let r = app_date_items(rows.drop_last(), app);
        let t = row_sum(rows.last().hourly_usage@);
        if t > 0 && rows.last().app_name@ == app {
            r.push((rows.last().date@, sat(t) as u64))
        } else {
            r
        }
    }
}

/// No record has usage at an hour past 23 (such a figure would index past the day).
pub open spec fn hours_within_day(rows: Seq<DailyStat>) -> bool {
    forall|r: int, i: int|
        0 <= r < rows.len() && 24 <= i < rows[r].hourly_usage@.len() ==> rows[r].hourly_usage@[i] == 0
}

// ==================== exec helpers ====================

/// The saturating sum of all figures.
pub fn sum_saturating(v: &Vec<u64>) -> (res: u64)
    ensures
        res == sat(row_sum(v@)),
{
    let mut acc: u64 = 0;
    let mut i: usize = 0;
    assert(v@.take(0) =~= Seq::<u64>::empty());
    while i < v.len()
        invariant
            i <= v.len(),
            acc == sat(row_sum(v@.take(i as int))),
        decreases v.len() - i,
    {
        assert(v@.take(i + 1).drop_last() =~= v@.take(i as int));
        acc = acc.saturating_add(v[i]);
        i = i + 1;
    }
    assert(v@.take(v.len() as int) =~= v@);
    acc
}

/// Adds the first 24 figures of `hourly` into `acc`, saturating.
fn add_hours(acc: &mut Vec<u64>, hourly: &Vec<u64>)
    requires
        old(acc).len() == 24,
    ensures
        final(acc).len() == 24,
        forall|h: int| 0 <= h < 24 ==> #[trigger] final(acc)@[h] == sat(old(acc)@[h] + hour_value(hourly@, h)),
{
    let mut h: usize = 0;
    while h < 24
        invariant
            acc.len() == 24,
            h <= 24,
            forall|k: int| 0 <= k < h ==> #[trigger] acc@[k] == sat(old(acc)@[k] + hour_value(hourly@, k)),
            forall|k: int| h <= k < 24 ==> #[trigger] acc@[k] == old(acc)@[k],
        decreases 24 - h,
    {
        if h < hourly.len() {
            let v = acc[h].saturating_add(hourly[h]);
            acc.set(h, v);
        }
        h = h + 1;
    }
}

fn zeros24() -> (res: Vec<u64>)
    ensures
        res.len() == 24,
        forall|h: int| 0 <= h < 24 ==> #[trigger] res@[h] == 0,
{
    let mut v: Vec<u64> = Vec::new();
    let mut i: usize = 0;
    while i < 24
        invariant
            i <= 24,
            v.len() == i,
            forall|h: int| 0 <= h < i ==> #[trigger] v@[h] == 0,
        decreases 24 - i,
    {
        v.push(0);
        i = i + 1;
    }
    v
}

/// Builds the (key, total) list of the records, keyed by app (`by_app`) or by date,
/// keeping only the records of `only_app` when it is given, and only those with usage.
fn record_items(rows: &Vec<DailyStat>, by_app: bool, only_app: Option<&String>) -> (res: Vec<(String, u64)>)
    ensures
        pairs_view(res@) == match only_app {
            Some(a) => app_date_items(rows@, a@),
            None => if by_app { app_items(rows@) } else { date_items(rows@) },
        },
{
    let mut out: Vec<(String, u64)> = Vec::new();
    let mut i: usize = 0;
    assert(rows@.take(0) =~= Seq::<DailyStat>::empty());
    assert(pairs_view(out@) =~= Seq::<(Seq<char>, u64)>::empty());
    while i < rows.len()
        invariant
            i <= rows.len(),
            pairs_view(out@) == match only_app {
                Some(a) => app_date_items(rows@.take(i as int), a@),
                None => if by_app { app_items(rows@.take(i as int)) } else { date_items(rows@.take(i as int)) },
            },
        decreases rows.len() - i,
    {
        assert(rows@.take(i + 1).drop_last() =~= rows@.take(i as int));
        assert(rows@.take(i + 1).last() == rows@[i as int]);
        let t = sum_saturating(&rows[i].hourly_usage);
        let ghost before = out@;
        let wanted = match only_app {
            Some(a) => rows[i].app_name == *a,
            None => true,
        };
        if t > 0 && wanted {
            let key = match only_app {
                Some(_) => rows[i].date.clone(),
                None => if by_app { rows[i].app_name.clone() } else { rows[i].date.clone() },
            };
            out.push((key, t));
            assert(pairs_view(out@) =~= pairs_view(before).push((key@, t)));
        }
        i = i + 1;
    }
    assert(rows@.take(rows.len() as int) =~= rows@);
    out
}

// ==================== a day ====================

impl StatsResult {
    /// No usage: zero total, no apps, 24 empty hours.
    pub fn empty() -> (res: Self)
        ensures
            res.total_usage == 0,
            res.app_stats.len() == 0,
            res.app_hourly_stats.len() == 0,
            res.hourly_stats.len() == 24,
            forall|h: int| 0 <= h < 24 ==> #[trigger] res.hourly_stats@[h] == 0,
    {
        StatsResult {
            total_usage: 0,
            app_stats: Vec::new(),
            hourly_stats: zeros24(),
            app_hourly_stats: Vec::new(),
        }
    }
}

/// The statistics of a set of records: the total, the total per app (apps with some
/// usage, in order of first appearance), the total per hour, and per app and hour.
pub open spec fn stats_of(rows: Seq<DailyStat>, res: StatsResult) -> bool {
    &&& res.total_usage == sat(grand_total(rows))
    &&& pairs_view(res.app_stats@) == tally_spec(app_items(rows))
    &&& res.hourly_stats.len() == 24
    &&& (forall|h: int| 0 <= h < 24 ==> #[trigger] res.hourly_stats@[h] == sat(hour_total(rows, h)))
    &&& res.app_hourly_stats.len() == res.app_stats.len()
    &&& (forall|i: int| 0 <= i < res.app_hourly_stats.len() ==> {
        &&& (#[trigger] res.app_hourly_stats@[i]).0@ == res.app_stats@[i].0@
        &&& res.app_hourly_stats@[i].1.len() == 24
        &&& forall|h: int| 0 <= h < 24 ==> #[trigger] res.app_hourly_stats@[i].1@[h] == sat(
            app_hour_total(rows, res.app_stats@[i].0@, h),
        )
    })
}

/// The per-hour sums of all records, and of the records of one app.
fn hour_sums(rows: &Vec<DailyStat>, app: Option<&String>) -> (res: Vec<u64>)
    ensures
        res.len() == 24,
        forall|h: int| 0 <= h < 24 ==> #[trigger] res@[h] == sat(match app {
            Some(a) => app_hour_total(rows@, a@, h),
            None => hour_total(rows@, h),
        }),
{
    let mut acc = zeros24();
    let mut i: usize = 0;
    while i < rows.len()
        invariant
            i <= rows.len(),
            acc.len() == 24,
            forall|h: int| 0 <= h < 24 ==> #[trigger] acc@[h] == sat(match app {
                Some(a) => app_hour_total(rows@.take(i as int), a@, h),
                None => hour_total(rows@.take(i as int), h),
            }),
        decreases rows.len() - i,
    {
        assert(rows@.take(i + 1).drop_last() =~= rows@.take(i as int));
        assert(rows@.take(i + 1).last() == rows@[i as int]);
        let wanted = match app {
            Some(a) => rows[i].app_name == *a,
            None => true,
        };
        if wanted {
            add_hours(&mut acc, &rows[i].hourly_usage);
        }
        i = i + 1;
    }
    assert(rows@.take(rows.len() as int) =~= rows@);
    acc
}

/// Aggregates a day's records.
pub fn process_stats(rows: &Vec<DailyStat>) -> (res: StatsResult)
    requires
        hours_within_day(rows@),
    ensures
        stats_of(rows@, res),
{
    let mut total: u64 = 0;
    let mut i: usize = 0;
    assert(rows@.take(0) =~= Seq::<DailyStat>::empty());
    while i < rows.len()
        invariant
            i <= rows.len(),
            total == sat(grand_total(rows@.take(i as int))),
        decreases rows.len() - i,
    {
        assert(rows@.take(i + 1).drop_last() =~= rows@.take(i as int));
        assert(rows@.take(i + 1).last() == rows@[i as int]);
        total = total.saturating_add(sum_saturating(&rows[i].hourly_usage));
        i = i + 1;
    }
    assert(rows@.take(rows.len() as int) =~= rows@);
    let items = record_items(rows, true, None);
    let app_stats = tally(&items);
    let hourly_stats = hour_sums(rows, None);
    let mut app_hourly: Vec<(String, Vec<u64>)> = Vec::new();
    let mut j: usize = 0;
    while j < app_stats.len()
        invariant
            j <= app_stats.len(),
            app_hourly.len() == j,
            forall|k: int| 0 <= k < j ==> {
                &&& (#[trigger] app_hourly@[k]).0@ == app_stats@[k].0@
                &&& app_hourly@[k].1.len() == 24
                &&& forall|h: int| 0 <= h < 24 ==> #[trigger] app_hourly@[k].1@[h] == sat(
                    app_hour_total(rows@, app_stats@[k].0@, h),
                )
            },
        decreases app_stats.len() - j,
    {
        let name = app_stats[j].0.clone();
        let sums = hour_sums(rows, Some(&name));
        app_hourly.push((name, sums));
        j = j + 1;
    }
    StatsResult { total_usage: total, app_stats, hourly_stats, app_hourly_stats: app_hourly }
}

/// A day's statistics from its records; no records give the empty statistics.
pub fn get_daily_stats(rows: &Vec<DailyStat>) -> (res: StatsResult)
    requires
        hours_within_day(rows@),
    ensures
        stats_of(rows@, res),
{
    if rows.len() == 0 {
        let res = StatsResult::empty();
        assert(app_items(rows@) =~= Seq::<(Seq<char>, u64)>::empty());
        assert(tally_spec(app_items(rows@)) =~= Seq::<(Seq<char>, u64)>::empty());
        assert(pairs_view(res.app_stats@) =~= Seq::<(Seq<char>, u64)>::empty());
        return res;
    }
    process_stats(rows)
}

// ==================== laws of a day ====================

/// A sum of figures is never negative.
pub proof fn lemma_row_sum_nonneg(h: Seq<u64>)
    ensures
        row_sum(h) >= 0,
    decreases h.len(),
{
    if h.len() > 0 {
        lemma_row_sum_nonneg(h.drop_last());
    }
}

proof fn lemma_app_items_total(rows: Seq<DailyStat>)
    requires
        grand_total(rows) <= u64::MAX,
    ensures
        amounts_total(app_items(rows)) == grand_total(rows),
    decreases rows.len(),
{
    if rows.len() > 0 {
        let pre = rows.drop_last();
        lemma_row_sum_nonneg(rows.last().hourly_usage@);
        lemma_grand_total_nonneg(pre);
        lemma_app_items_total(pre);
        let r = app_items(pre);
        let t = row_sum(rows.last().hourly_usage@);
        if t > 0 {
            assert(r.push((rows.last().app_name@, sat(t) as u64)).drop_last() =~= r);
        }
    }
}

proof fn lemma_grand_total_nonneg(rows: Seq<DailyStat>)
    ensures
        grand_total(rows) >= 0,
    decreases rows.len(),
{
    if rows.len() > 0 {
        lemma_grand_total_nonneg(rows.drop_last());
        lemma_row_sum_nonneg(rows.last().hourly_usage@);
    }
}

/// The sum of the first `n` hours of a record.
pub open spec fn hours_prefix(h: Seq<u64>, n: int) -> int
    decreases n,
{
    if n <= 0 {
        0
    } else {
        hours_prefix(h, n - 1) + hour_value(h, n - 1)
    }
}

proof fn lemma_hours_prefix_full(h: Seq<u64>, n: int)
    requires
        0 <= n,
        forall|i: int| n <= i < h.len() ==> h[i] == 0,
    ensures
        hours_prefix(h, n) == row_sum(h),
    decreases h.len(), n,
{
    if h.len() == 0 {
        lemma_hours_prefix_zero(h, n);
    } else if n >= h.len() {
        // Past the end every hour is 0.
        if n > h.len() {
            lemma_hours_prefix_full(h, n - 1);
            assert(hour_value(h, n - 1) == 0);
        } else {
            let d = h.drop_last();
            lemma_hours_prefix_full(d, n - 1);
            lemma_hours_prefix_same(h, d, n - 1);
        }
    } else {
        // The record is longer than `n`: its last figure is 0.
        let d = h.drop_last();
        assert(h.last() == 0);
        lemma_hours_prefix_full(d, n);
        lemma_hours_prefix_same(h, d, n);
    }
}

proof fn lemma_hours_prefix_zero(h: Seq<u64>, n: int)
    requires
        h.len() == 0,
    ensures
        hours_prefix(h, n) == 0,
    decreases n,
{
    if n > 0 {
        lemma_hours_prefix_zero(h, n - 1);
    }
}

proof fn lemma_hours_prefix_same(h: Seq<u64>, d: Seq<u64>, n: int)
    requires
        d.len() + 1 == h.len(),
        n <= d.len(),
        forall|i: int| 0 <= i < d.len() ==> d[i] == h[i],
    ensures
        hours_prefix(h, n) == hours_prefix(d, n),
    decreases n,
{
    if n > 0 {
        lemma_hours_prefix_same(h, d, n - 1);
    }
}

/// The sum over the first `n` hours of the per-hour totals.
pub open spec fn hour_totals_prefix(rows: Seq<DailyStat>, n: int) -> int
    decreases n,
{
    if n <= 0 {
        0
    } else {
        hour_totals_prefix(rows, n - 1) + hour_total(rows, n - 1)
    }
}

proof fn lemma_hour_totals_exchange(rows: Seq<DailyStat>, n: int)
    requires
        0 <= n,
        rows.len() > 0,
    ensures
        hour_totals_prefix(rows, n) == hour_totals_prefix(rows.drop_last(), n) + hours_prefix(
            rows.last().hourly_usage@,
            n,
        ),
    decreases n,
{
    if n > 0 {
        lemma_hour_totals_exchange(rows, n - 1);
        assert(hour_total(rows, n - 1) == hour_total(rows.drop_last(), n - 1) + hour_value(
            rows.last().hourly_usage@,
            n - 1,
        ));
    }
}

proof fn lemma_hour_totals_empty(rows: Seq<DailyStat>, n: int)
    requires
        rows.len() == 0,
    ensures
        hour_totals_prefix(rows, n) == 0,
    decreases n,
{
    if n > 0 {
        lemma_hour_totals_empty(rows, n - 1);
    }
}

proof fn lemma_hour_totals_grand(rows: Seq<DailyStat>)
    requires
        hours_within_day(rows),
    ensures
        hour_totals_prefix(rows, 24) == grand_total(rows),
    decreases rows.len(),
{
    if rows.len() == 0 {
        lemma_hour_totals_empty(rows, 24);
    } else {
        let pre = rows.drop_last();
        assert(hours_within_day(pre)) by {
            assert forall|r: int, i: int|
                0 <= r < pre.len() && 24 <= i < pre[r].hourly_usage@.len() implies pre[r].hourly_usage@[i] == 0 by {
                assert(pre[r] == rows[r]);
            }
        }
        lemma_hour_totals_grand(pre);
        lemma_hour_totals_exchange(rows, 24);
        let last = rows[rows.len() - 1];
        assert(forall|i: int| 24 <= i < last.hourly_usage@.len() ==> last.hourly_usage@[i] == 0);
        lemma_hours_prefix_full(last.hourly_usage@, 24);
    }
}

/// The sum of the 24 hourly figures of a result.
pub open spec fn hourly_stats_sum(hourly: Seq<u64>, n: int) -> int
    decreases n,
{
    if n <= 0 {
        0
    } else {
        hourly_stats_sum(hourly, n - 1) + hourly[n - 1] as int
    }
}

proof fn lemma_hour_total_le(rows: Seq<DailyStat>, h: int, n: int)
    requires
        0 <= h < n <= 24,
    ensures
        0 <= hour_total(rows, h) <= hour_totals_prefix(rows, n),
    decreases n,
{
    lemma_hour_total_nonneg(rows, h);
    if n - 1 > h {
        lemma_hour_total_le(rows, h, n - 1);
        lemma_hour_total_nonneg(rows, n - 1);
    } else {
        lemma_hour_totals_prefix_nonneg(rows, n - 1);
    }
}

proof fn lemma_hour_total_nonneg(rows: Seq<DailyStat>, h: int)
    ensures
        hour_total(rows, h) >= 0,
    decreases rows.len(),
{
    if rows.len() > 0 {
        lemma_hour_total_nonneg(rows.drop_last(), h);
    }
}

proof fn lemma_hour_totals_prefix_nonneg(rows: Seq<DailyStat>, n: int)
    ensures
        hour_totals_prefix(rows, n) >= 0,
    decreases n,
{
    if n > 0 {
        lemma_hour_totals_prefix_nonneg(rows, n - 1);
        lemma_hour_total_nonneg(rows, n - 1);
    }
}

proof fn lemma_hourly_sum_matches(rows: Seq<DailyStat>, hourly: Seq<u64>, n: int)
    requires
        0 <= n <= 24,
        hourly.len() == 24,
        hour_totals_prefix(rows, 24) <= u64::MAX,
        forall|h: int| 0 <= h < 24 ==> #[trigger] hourly[h] == sat(hour_total(rows, h)),
    ensures
        hourly_stats_sum(hourly, n) == hour_totals_prefix(rows, n),
    decreases n,
{
    if n > 0 {
        lemma_hourly_sum_matches(rows, hourly, n - 1);
        lemma_hour_total_le(rows, n - 1, 24);
        assert(hourly[n - 1] == sat(hour_total(rows, n - 1)));
    }
}

/// A day's figures agree: when nothing saturates, the total is the sum of the
/// per-app totals and also the sum of the 24 per-hour totals; each app listed has
/// some usage, and no app is listed twice.
pub proof fn lemma_daily_totals_agree(rows: Seq<DailyStat>, res: StatsResult)
    requires
        hours_within_day(rows),
        stats_of(rows, res),
        grand_total(rows) <= u64::MAX,
    ensures
        res.total_usage == amounts_total(pairs_view(res.app_stats@)),
        res.total_usage == hourly_stats_sum(res.hourly_stats@, 24),
        distinct_keys(pairs_view(res.app_stats@)),
        forall|i: int| 0 <= i < res.app_stats.len() ==> #[trigger] res.app_stats@[i].1 > 0,
{
    lemma_app_items_total(rows);
    lemma_tally_sum(app_items(rows));
    lemma_tally(app_items(rows));
    lemma_hour_totals_grand(rows);
    lemma_hourly_sum_matches(rows, res.hourly_stats@, 24);
    lemma_app_items_positive(rows);
    assert forall|i: int| 0 <= i < res.app_stats.len() implies #[trigger] res.app_stats@[i].1 > 0 by {
        let t = tally_spec(app_items(rows));
        assert(pairs_view(res.app_stats@)[i] == t[i]);
        let k = t[i].0;
        assert(has_key(t, k));
        assert(has_key(app_items(rows), k));
        let w = choose|j: int| 0 <= j < app_items(rows).len() && app_items(rows)[j].0 == k;
        lemma_key_total_ge(app_items(rows), k, w);
    }
}

proof fn lemma_app_items_positive(rows: Seq<DailyStat>)
    ensures
        forall|j: int| 0 <= j < app_items(rows).len() ==> #[trigger] app_items(rows)[j].1 > 0,
    decreases rows.len(),
{
    if rows.len() > 0 {
        lemma_app_items_positive(rows.drop_last());
        let r = app_items(rows.drop_last());
        let t = row_sum(rows.last().hourly_usage@);
        if t > 0 {
            assert forall|j: int| 0 <= j < app_items(rows).len() implies #[trigger] app_items(rows)[j].1 > 0 by {
                if j < r.len() {
                    assert(app_items(rows)[j] == r[j]);
                }
            }
        }
    }
}

proof fn lemma_key_total_ge(items: Seq<(Seq<char>, u64)>, k: Seq<char>, w: int)
    requires
        0 <= w < items.len(),
        items[w].0 == k,
        forall|j: int| 0 <= j < items.len() ==> #[trigger] items[j].1 > 0,
    ensures
        key_total(items, k) >= items[w].1,
    decreases items.len(),
{
    let pre = items.drop_last();
    lemma_key_total_nonneg(pre, k);
    if w < items.len() - 1 {
        assert forall|j: int| 0 <= j < pre.len() implies #[trigger] pre[j].1 > 0 by {
            assert(pre[j] == items[j]);
        }
        assert(pre[w] == items[w]);
        lemma_key_total_ge(pre, k, w);
    }
}

proof fn lemma_key_total_nonneg(items: Seq<(Seq<char>, u64)>, k: Seq<char>)
    ensures
        key_total(items, k) >= 0,
    decreases items.len(),
{
    if items.len() > 0 {
        lemma_key_total_nonneg(items.drop_last(), k);
    }
}

/// Hour `h` summed over the per-app hourly figures of a result.
pub open spec fn apps_hour_sum(per_app: Seq<(String, Vec<u64>)>, h: int) -> int
    decreases per_app.len(),
{
    if per_app.len() == 0 {
        0
    } else {
        apps_hour_sum(per_app.drop_last(), h) + per_app.last().1@[h] as int
    }
}

/// Hour `h` of the records, summed over the apps named by the keys of `keys`.
spec fn keys_hour_sum(rows: Seq<DailyStat>, keys: Seq<(Seq<char>, u64)>, h: int) -> int
    decreases keys.len(),
{
    if keys.len() == 0 {
        0
    } else {
        keys_hour_sum(rows, keys.drop_last(), h) + app_hour_total(rows, keys.last().0, h)
    }
}

/// `x` once for each key of `keys` that is `a`.
spec fn matched(keys: Seq<(Seq<char>, u64)>, a: Seq<char>, x: int) -> int
    decreases keys.len(),
{
    if keys.len() == 0 {
        0
    } else {
        matched(keys.drop_last(), a, x) + if keys.last().0 == a {
            x
        } else {
            0
        }
    }
}

proof fn lemma_matched(keys: Seq<(Seq<char>, u64)>, a: Seq<char>, x: int)
    requires
        distinct_keys(keys),
    ensures
        has_key(keys, a) ==> matched(keys, a, x) == x,
        !has_key(keys, a) ==> matched(keys, a, x) == 0,
    decreases keys.len(),
{
    if keys.len() > 0 {
        let pre = keys.drop_last();
        assert(distinct_keys(pre)) by {
            assert forall|i: int, j: int| 0 <= i < pre.len() && 0 <= j < pre.len() && i != j implies pre[i].0 != pre[j].0 by {
                assert(pre[i] == keys[i]);
                assert(pre[j] == keys[j]);
            }
        }
        lemma_matched(pre, a, x);
        let n = keys.len() - 1;
        if keys.last().0 == a {
            assert(!has_key(pre, a)) by {
                if has_key(pre, a) {
                    let i = choose|i: int| 0 <= i < pre.len() && pre[i].0 == a;
                    assert(keys[i] == pre[i]);
                    assert(keys[n] == keys.last());
                }
            }
            assert(has_key(keys, a)) by {
                assert(keys[n].0 == a);
            }
        } else {
            assert(has_key(keys, a) == has_key(pre, a)) by {
                if has_key(keys, a) {
                    let i = choose|i: int| 0 <= i < keys.len() && keys[i].0 == a;
                    assert(i != n);
                    assert(pre[i] == keys[i]);
                }
                if has_key(pre, a) {
                    let i = choose|i: int| 0 <= i < pre.len() && pre[i].0 == a;
                    assert(keys[i] == pre[i]);
                }
            }
        }
    }
}

proof fn lemma_keys_hour_sum_step(rows: Seq<DailyStat>, keys: Seq<(Seq<char>, u64)>, h: int)
    requires
        rows.len() > 0,
    ensures
        keys_hour_sum(rows, keys, h) == keys_hour_sum(rows.drop_last(), keys, h) + matched(
            keys,
            rows.last().app_name@,
            hour_value(rows.last().hourly_usage@, h),
        ),
    decreases keys.len(),
{
    if keys.len() > 0 {
        lemma_keys_hour_sum_step(rows, keys.drop_last(), h);
    }
}

proof fn lemma_keys_hour_sum_empty(rows: Seq<DailyStat>, keys: Seq<(Seq<char>, u64)>, h: int)
    requires
        rows.len() == 0,
    ensures
        keys_hour_sum(rows, keys, h) == 0,
    decreases keys.len(),
{
    if keys.len() > 0 {
        lemma_keys_hour_sum_empty(rows, keys.drop_last(), h);
    }
}

/// No hour holds more than the whole record.
proof fn lemma_hour_value_le_sum(hv: Seq<u64>, i: int)
    ensures
        0 <= hour_value(hv, i) <= row_sum(hv),
    decreases hv.len(),
{
    lemma_row_sum_nonneg(hv);
    if hv.len() > 0 {
        let d = hv.drop_last();
        lemma_hour_value_le_sum(d, i);
        lemma_row_sum_nonneg(d);
        if 0 <= i < d.len() {
            assert(hour_value(d, i) == hour_value(hv, i));
        }
    }
}

/// Summed over keys that name every app with usage once, the apps' hours give the
/// hours of all records.
proof fn lemma_keys_cover(rows: Seq<DailyStat>, keys: Seq<(Seq<char>, u64)>, h: int)
    requires
        distinct_keys(keys),
        forall|r: int|
            0 <= r < rows.len() && row_sum(#[trigger] rows[r].hourly_usage@) > 0 ==> has_key(keys, rows[r].app_name@),
    ensures
        keys_hour_sum(rows, keys, h) == hour_total(rows, h),
    decreases rows.len(),
{
    if rows.len() == 0 {
        lemma_keys_hour_sum_empty(rows, keys, h);
    } else {
        let pre = rows.drop_last();
        let last = rows.last();
        assert forall|r: int| 0 <= r < pre.len() && row_sum(#[trigger] pre[r].hourly_usage@) > 0 implies has_key(
            keys,
            pre[r].app_name@,
        ) by {
            assert(pre[r] == rows[r]);
        }
        lemma_keys_cover(pre, keys, h);
        lemma_keys_hour_sum_step(rows, keys, h);
        let x = hour_value(last.hourly_usage@, h);
        lemma_matched(keys, last.app_name@, x);
        lemma_hour_value_le_sum(last.hourly_usage@, h);
        if !has_key(keys, last.app_name@) {
            assert(rows[rows.len() - 1] == last);
            assert(row_sum(last.hourly_usage@) == 0);
        }
    }
}

proof fn lemma_app_hour_total_le(rows: Seq<DailyStat>, a: Seq<char>, h: int)
    ensures
        0 <= app_hour_total(rows, a, h) <= hour_total(rows, h),
    decreases rows.len(),
{
    if rows.len() > 0 {
        lemma_app_hour_total_le(rows.drop_last(), a, h);
        lemma_hour_value_le_sum(rows.last().hourly_usage@, h);
    }
}

/// A record with some usage has its app among the per-record totals.
proof fn lemma_app_items_has(rows: Seq<DailyStat>, r: int)
    requires
        0 <= r < rows.len(),
        row_sum(rows[r].hourly_usage@) > 0,
    ensures
        has_key(app_items(rows), rows[r].app_name@),
    decreases rows.len(),
{
    let pre = rows.drop_last();
    let items = app_items(rows);
    let t = row_sum(rows.last().hourly_usage@);
    if r == rows.len() - 1 {
        assert(items[items.len() - 1].0 == rows[r].app_name@);
    } else {
        assert(pre[r] == rows[r]);
        lemma_app_items_has(pre, r);
        let w = choose|i: int| 0 <= i < app_items(pre).len() && app_items(pre)[i].0 == rows[r].app_name@;
        if t > 0 {
            assert(items[w] == app_items(pre)[w]);
        }
    }
}

proof fn lemma_apps_hour_sum_prefix(rows: Seq<DailyStat>, res: StatsResult, h: int, n: int)
    requires
        stats_of(rows, res),
        0 <= h < 24,
        0 <= n <= res.app_stats.len(),
        hour_total(rows, h) <= u64::MAX,
    ensures
        apps_hour_sum(res.app_hourly_stats@.take(n), h) == keys_hour_sum(rows, tally_spec(app_items(rows)).take(n), h),
    decreases n,
{
    let per = res.app_hourly_stats@;
    let keys = tally_spec(app_items(rows));
    if n == 0 {
        assert(per.take(0) =~= Seq::<(String, Vec<u64>)>::empty());
        assert(keys.take(0) =~= Seq::<(Seq<char>, u64)>::empty());
    } else {
        lemma_apps_hour_sum_prefix(rows, res, h, n - 1);
        assert(per.take(n).drop_last() =~= per.take(n - 1));
        assert(per.take(n).last() == per[n - 1]);
        assert(keys.take(n).drop_last() =~= keys.take(n - 1));
        assert(keys.take(n).last() == keys[n - 1]);
        assert(pairs_view(res.app_stats@)[n - 1] == keys[n - 1]);
        assert(res.app_stats@[n - 1].0@ == keys[n - 1].0);
        assert(per[n - 1].1@[h] == sat(app_hour_total(rows, keys[n - 1].0, h)));
        lemma_app_hour_total_le(rows, keys[n - 1].0, h);
    }
}

/// Each hour's figure is the sum of that hour over the apps listed (when nothing
/// saturates): the per-app hours add up to the hours of the day.
pub proof fn lemma_app_hours_add_up(rows: Seq<DailyStat>, res: StatsResult, h: int)
    requires
        hours_within_day(rows),
        stats_of(rows, res),
        grand_total(rows) <= u64::MAX,
        0 <= h < 24,
    ensures
        apps_hour_sum(res.app_hourly_stats@, h) == res.hourly_stats@[h],
{
    lemma_hour_totals_grand(rows);
    lemma_hour_total_le(rows, h, 24);
    let keys = tally_spec(app_items(rows));
    lemma_tally(app_items(rows));
    assert forall|r: int| 0 <= r < rows.len() && row_sum(#[trigger] rows[r].hourly_usage@) > 0 implies has_key(
        keys,
        rows[r].app_name@,
    ) by {
        lemma_app_items_has(rows, r);
    }
    lemma_keys_cover(rows, keys, h);
    let n = res.app_stats.len() as int;
    assert(keys.len() == n);
    lemma_apps_hour_sum_prefix(rows, res, h, n);
    assert(res.app_hourly_stats@.take(n) =~= res.app_hourly_stats@);
    assert(keys.take(n) =~= keys);
}

// ==================== a week or a month ====================

/// The per-app, per-day totals: each app with usage once, in order of first
/// appearance, with the totals of its records by date.
pub open spec fn app_daily_spec(rows: Seq<DailyStat>) -> Seq<(Seq<char>, Seq<(Seq<char>, u64)>)> {
    tally_spec(app_items(rows)).map_values(
        |p: (Seq<char>, u64)| (p.0, tally_spec(app_date_items(rows, p.0))),
    )
}

pub open spec fn nested_view(v: Seq<(String, Vec<(String, u64)>)>) -> Seq<(Seq<char>, Seq<(Seq<char>, u64)>)> {
    v.map_values(|p: (String, Vec<(String, u64)>)| (p.0@, pairs_view(p.1@)))
}

/// All apps, or only the entry of app `a` (none if it had no usage).
pub open spec fn only_app(
    all: Seq<(Seq<char>, Seq<(Seq<char>, u64)>)>,
    app: Option<Seq<char>>,
) -> Seq<(Seq<char>, Seq<(Seq<char>, u64)>)> {
    match app {
        None => all,
        Some(a) => if exists|i: int| 0 <= i < all.len() && all[i].0 == a {
            seq![all[choose|i: int| 0 <= i < all.len() && all[i].0 == a]]
        } else {
            seq![]
        },
    }
}

pub open spec fn opt_view(app: Option<&str>) -> Option<Seq<char>> {
    match app {
        Some(a) => Some(a@),
        None => None,
    }
}

/// Key `k` summed over the per-app lists of totals (0 for a list without it).
pub open spec fn apps_amount_sum(per_app: Seq<(Seq<char>, Seq<(Seq<char>, u64)>)>, k: Seq<char>) -> int
    decreases per_app.len(),
{
    if per_app.len() == 0 {
        0
    } else {
        apps_amount_sum(per_app.drop_last(), k) + amount_of(per_app.last().1, k)
    }
}

/// Date `d` of the records, summed over the apps named by the keys of `keys`.
spec fn keys_date_sum(rows: Seq<DailyStat>, keys: Seq<(Seq<char>, u64)>, d: Seq<char>) -> int
    decreases keys.len(),
{
    if keys.len() == 0 {
        0
    } else {
        keys_date_sum(rows, keys.drop_last(), d) + key_total(app_date_items(rows, keys.last().0), d)
    }
}

/// What the last record adds to date `d`.
spec fn last_contribution(rows: Seq<DailyStat>, d: Seq<char>) -> int {
    let t = row_sum(rows.last().hourly_usage@);
    if t > 0 && rows.last().date@ == d {
        sat(t)
    } else {
        0
    }
}

proof fn lemma_keys_date_sum_step(rows: Seq<DailyStat>, keys: Seq<(Seq<char>, u64)>, d: Seq<char>)
    requires
        rows.len() > 0,
    ensures
        keys_date_sum(rows, keys, d) == keys_date_sum(rows.drop_last(), keys, d) + matched(
            keys,
            rows.last().app_name@,
            last_contribution(rows, d),
        ),
    decreases keys.len(),
{
    if keys.len() > 0 {
        lemma_keys_date_sum_step(rows, keys.drop_last(), d);
        let k = keys.last().0;
        let pre_items = app_date_items(rows.drop_last(), k);
        let t = row_sum(rows.last().hourly_usage@);
        if t > 0 && rows.last().app_name@ == k {
            let items = pre_items.push((rows.last().date@, sat(t) as u64));
            assert(items.drop_last() =~= pre_items);
        }
    }
}

proof fn lemma_keys_date_sum_empty(rows: Seq<DailyStat>, keys: Seq<(Seq<char>, u64)>, d: Seq<char>)
    requires
        rows.len() == 0,
    ensures
        keys_date_sum(rows, keys, d) == 0,
    decreases keys.len(),
{
    if keys.len() > 0 {
        lemma_keys_date_sum_empty(rows, keys.drop_last(), d);
    }
}

/// Summed over keys that name every app with usage once, the apps' totals for a
/// date give the date's total.
proof fn lemma_keys_date_cover(rows: Seq<DailyStat>, keys: Seq<(Seq<char>, u64)>, d: Seq<char>)
    requires
        distinct_keys(keys),
        forall|r: int|
            0 <= r < rows.len() && row_sum(#[trigger] rows[r].hourly_usage@) > 0 ==> has_key(keys, rows[r].app_name@),
    ensures
        keys_date_sum(rows, keys, d) == key_total(date_items(rows), d),
    decreases rows.len(),
{
    if rows.len() == 0 {
        lemma_keys_date_sum_empty(rows, keys, d);
    } else {
        let pre = rows.drop_last();
        let last = rows.last();
        assert forall|r: int| 0 <= r < pre.len() && row_sum(#[trigger] pre[r].hourly_usage@) > 0 implies has_key(
            keys,
            pre[r].app_name@,
        ) by {
            assert(pre[r] == rows[r]);
        }
        lemma_keys_date_cover(pre, keys, d);
        lemma_keys_date_sum_step(rows, keys, d);
        lemma_matched(keys, last.app_name@, last_contribution(rows, d));
        let t = row_sum(last.hourly_usage@);
        if t > 0 {
            assert(rows[rows.len() - 1] == last);
            let items = date_items(pre).push((last.date@, sat(t) as u64));
            assert(items.drop_last() =~= date_items(pre));
        }
    }
}

proof fn lemma_app_date_total_le(rows: Seq<DailyStat>, a: Seq<char>, d: Seq<char>)
    ensures
        0 <= key_total(app_date_items(rows, a), d) <= grand_total(rows),
    decreases rows.len(),
{
    if rows.len() > 0 {
        let pre = rows.drop_last();
        lemma_app_date_total_le(pre, a, d);
        lemma_row_sum_nonneg(rows.last().hourly_usage@);
        let t = row_sum(rows.last().hourly_usage@);
        if t > 0 && rows.last().app_name@ == a {
            let items = app_date_items(pre, a).push((rows.last().date@, sat(t) as u64));
            assert(items.drop_last() =~= app_date_items(pre, a));
        }
    }
}

proof fn lemma_date_total_le(rows: Seq<DailyStat>, d: Seq<char>)
    ensures
        0 <= key_total(date_items(rows), d) <= grand_total(rows),
    decreases rows.len(),
{
    if rows.len() > 0 {
        let pre = rows.drop_last();
        lemma_date_total_le(pre, d);
        lemma_row_sum_nonneg(rows.last().hourly_usage@);
        let t = row_sum(rows.last().hourly_usage@);
        if t > 0 {
            let items = date_items(pre).push((rows.last().date@, sat(t) as u64));
            assert(items.drop_last() =~= date_items(pre));
        }
    }
}

proof fn lemma_apps_amount_prefix(rows: Seq<DailyStat>, d: Seq<char>, n: int)
    requires
        0 <= n <= tally_spec(app_items(rows)).len(),
        grand_total(rows) <= u64::MAX,
    ensures
        apps_amount_sum(app_daily_spec(rows).take(n), d) == keys_date_sum(rows, tally_spec(app_items(rows)).take(n), d),
    decreases n,
{
    let per = app_daily_spec(rows);
    let keys = tally_spec(app_items(rows));
    if n == 0 {
        assert(per.take(0) =~= Seq::<(Seq<char>, Seq<(Seq<char>, u64)>)>::empty());
        assert(keys.take(0) =~= Seq::<(Seq<char>, u64)>::empty());
    } else {
        lemma_apps_amount_prefix(rows, d, n - 1);
        assert(per.take(n).drop_last() =~= per.take(n - 1));
        assert(per.take(n).last() == per[n - 1]);
        assert(keys.take(n).drop_last() =~= keys.take(n - 1));
        assert(keys.take(n).last() == keys[n - 1]);
        let k = keys[n - 1].0;
        assert(per[n - 1] == (k, tally_spec(app_date_items(rows, k))));
        lemma_amount_of_tally(app_date_items(rows, k), d);
        lemma_app_date_total_le(rows, k, d);
    }
}

/// The per-app totals of a date add up to the date's total (when nothing
/// saturates): the apps' days add up to the days of the range.
pub proof fn lemma_app_days_add_up(rows: Seq<DailyStat>, d: Seq<char>)
    requires
        grand_total(rows) <= u64::MAX,
    ensures
        apps_amount_sum(app_daily_spec(rows), d) == amount_of(tally_spec(date_items(rows)), d),
{
    let keys = tally_spec(app_items(rows));
    lemma_tally(app_items(rows));
    assert forall|r: int| 0 <= r < rows.len() && row_sum(#[trigger] rows[r].hourly_usage@) > 0 implies has_key(
        keys,
        rows[r].app_name@,
    ) by {
        lemma_app_items_has(rows, r);
    }
    lemma_keys_date_cover(rows, keys, d);
    let n = keys.len() as int;
    lemma_apps_amount_prefix(rows, d, n);
    assert(app_daily_spec(rows).take(n) =~= app_daily_spec(rows));
    assert(keys.take(n) =~= keys);
    lemma_amount_of_tally(date_items(rows), d);
    lemma_date_total_le(rows, d);
}

/// The per-day totals and the per-app, per-day totals of a range of records.
pub fn process_range_stats(rows: &Vec<DailyStat>) -> (res: (Vec<(String, u64)>, Vec<(String, Vec<(String, u64)>)>))
    ensures
        pairs_view(res.0@) == tally_spec(date_items(rows@)),
        nested_view(res.1@) == app_daily_spec(rows@),
{
    let date_list = record_items(rows, false, None);
    let daily_totals = tally(&date_list);
    let app_list = record_items(rows, true, None);
    let apps = tally(&app_list);
    let mut per_app: Vec<(String, Vec<(String, u64)>)> = Vec::new();
    let mut j: usize = 0;
    while j < apps.len()
        invariant
            j <= apps.len(),
            pairs_view(apps@) == tally_spec(app_items(rows@)),
            nested_view(per_app@) == app_daily_spec(rows@).take(j as int),
        decreases apps.len() - j,
    {
        assert(pairs_view(apps@)[j as int].0 == apps@[j as int].0@);
        let name = apps[j].0.clone();
        let items = record_items(rows, false, Some(&name));
        let dates = tally(&items);
        let ghost before = per_app@;
        per_app.push((name, dates));
        assert(nested_view(per_app@) =~= nested_view(before).push((name@, pairs_view(dates@))));
        j = j + 1;
        assert(nested_view(per_app@) =~= app_daily_spec(rows@).take(j as int));
    }
    assert(app_daily_spec(rows@).take(apps.len() as int) =~= app_daily_spec(rows@));
    (daily_totals, per_app)
}

fn filter_app(per_app: Vec<(String, Vec<(String, u64)>)>, app: Option<&str>) -> (res: Vec<(String, Vec<(String, u64)>)>)
    requires
        forall|i: int, j: int| 0 <= i < per_app.len() && 0 <= j < per_app.len() && i != j ==> per_app@[i].0@ != per_app@[j].0@,
    ensures
        nested_view(res@) == only_app(nested_view(per_app@), opt_view(app)),
{
    match app {
        None => per_app,
        Some(a) => {
            let key = a.to_owned();
            let ghost all = nested_view(per_app@);
            let mut i: usize = 0;
            while i < per_app.len()
                invariant
                    i <= per_app.len(),
                    key@ == a@,
                    app == Some(a),
                    all == nested_view(per_app@),
                    forall|j: int| 0 <= j < i ==> per_app@[j].0@ != a@,
                    forall|x: int, y: int| 0 <= x < per_app.len() && 0 <= y < per_app.len() && x != y ==> per_app@[x].0@ != per_app@[y].0@,
                decreases per_app.len() - i,
            {
                if per_app[i].0 == key {
                    assert(all[i as int].0 == a@);
                    let ghost w = choose|j: int| 0 <= j < all.len() && all[j].0 == a@;
                    assert(w == i as int) by {
                        assert(all[w].0 == per_app@[w].0@);
                        if w != i as int {
                            assert(per_app@[w].0@ != per_app@[i as int].0@);
                        }
                    }
                    let mut out: Vec<(String, Vec<(String, u64)>)> = Vec::new();
                    let dates = clone_pairs(&per_app[i].1);
                    out.push((key, dates));
                    assert(nested_view(out@) =~= seq![all[i as int]]);
                    assert(exists|j: int| 0 <= j < all.len() && all[j].0 == a@);
                    assert(opt_view(app) == Some(a@));
                    assert(only_app(all, opt_view(app)) == seq![all[w]]);
                    return out;
                }
                i = i + 1;
            }
            assert(!(exists|j: int| 0 <= j < all.len() && all[j].0 == a@)) by {
                if exists|j: int| 0 <= j < all.len() && all[j].0 == a@ {
                    let w = choose|j: int| 0 <= j < all.len() && all[j].0 == a@;
                    assert(all[w].0 == per_app@[w].0@);
                }
            }
            let out: Vec<(String, Vec<(String, u64)>)> = Vec::new();
            assert(nested_view(out@) =~= Seq::<(Seq<char>, Seq<(Seq<char>, u64)>)>::empty());
            out
        },
    }
}

fn clone_pairs(v: &Vec<(String, u64)>) -> (res: Vec<(String, u64)>)
    ensures
        res@ == v@,
{
    let mut out: Vec<(String, u64)> = Vec::new();
    let mut i: usize = 0;
    while i < v.len()
        invariant
            i <= v.len(),
            out@ == v@.take(i as int),
        decreases v.len() - i,
    {
        out.push((v[i].0.clone(), v[i].1));
        i = i + 1;
        assert(out@ =~= v@.take(i as int));
    }
    out
}

proof fn lemma_per_app_distinct(rows: Seq<DailyStat>, per_app: Seq<(String, Vec<(String, u64)>)>)
    requires
        nested_view(per_app) == app_daily_spec(rows),
    ensures
        forall|i: int, j: int| 0 <= i < per_app.len() && 0 <= j < per_app.len() && i != j ==> per_app[i].0@ != per_app[j].0@,
{
    lemma_tally(app_items(rows));
    assert(per_app.len() == nested_view(per_app).len());
    assert(app_daily_spec(rows).len() == tally_spec(app_items(rows)).len());
    assert forall|i: int, j: int| 0 <= i < per_app.len() && 0 <= j < per_app.len() && i != j implies per_app[i].0@ != per_app[j].0@ by {
        assert(nested_view(per_app)[i].0 == per_app[i].0@);
        assert(nested_view(per_app)[j].0 == per_app[j].0@);
        assert(app_daily_spec(rows)[i].0 == tally_spec(app_items(rows))[i].0);
        assert(app_daily_spec(rows)[j].0 == tally_spec(app_items(rows))[j].0);
    }
}

/// A week's or a month's statistics (`is_week` picks which), for all apps or one app.
fn range_stats(rows: &Vec<DailyStat>, app_name: Option<&str>, is_week: bool, offset: i32, range: DateRange) -> (res: RangeStatsResult)
    ensures
        pairs_view(res.daily_totals@) == tally_spec(date_items(rows@)),
        nested_view(res.app_daily_stats@) == only_app(app_daily_spec(rows@), opt_view(app_name)),
        is_week ==> res.week_offset == Some(offset) && res.month_offset is None && res.week_range == Some(range) && res.month_range is None,
        !is_week ==> res.month_offset == Some(offset) && res.week_offset is None && res.month_range == Some(range) && res.week_range is None,
{
    let (daily_totals, per_app) = process_range_stats(rows);
    proof {
        lemma_per_app_distinct(rows@, per_app@);
    }
    let filtered = filter_app(per_app, app_name);
    if is_week {
        RangeStatsResult {
            week_offset: Some(offset),
            month_offset: None,
            week_range: Some(range),
            month_range: None,
            daily_totals,
            app_daily_stats: filtered,
        }
    } else {
        RangeStatsResult {
            week_offset: None,
            month_offset: Some(offset),
            week_range: None,
            month_range: Some(range),
            daily_totals,
            app_daily_stats: filtered,
        }
    }
}

/// A week's statistics from the records of the week `range`, for all apps or for `app_name`.
pub fn get_weekly_stats(rows: &Vec<DailyStat>, app_name: Option<&str>, week_offset: i32, range: DateRange) -> (res: RangeStatsResult)
    ensures
        pairs_view(res.daily_totals@) == tally_spec(date_items(rows@)),
        nested_view(res.app_daily_stats@) == only_app(app_daily_spec(rows@), opt_view(app_name)),
        res.week_offset == Some(week_offset),
        res.month_offset is None,
        res.week_range == Some(range),
        res.month_range is None,
{
    range_stats(rows, app_name, true, week_offset, range)
}

/// A month's statistics from the records of the month `range`, for all apps or for `app_name`.
pub fn get_monthly_stats(rows: &Vec<DailyStat>, app_name: Option<&str>, month_offset: i32, range: DateRange) -> (res: RangeStatsResult)
    ensures
        pairs_view(res.daily_totals@) == tally_spec(date_items(rows@)),
        nested_view(res.app_daily_stats@) == only_app(app_daily_spec(rows@), opt_view(app_name)),
        res.month_offset == Some(month_offset),
        res.week_offset is None,
        res.month_range == Some(range),
        res.week_range is None,
{
    range_stats(rows, app_name, false, month_offset, range)
}

} // verus!
