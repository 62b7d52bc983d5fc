//! Screen time: counted while at least one device is in use, split into the local
//! hours it covers, and summed per day.
use vstd::prelude::*;
use crate::models::{DailyEyeTime, DateRange, EyeDeviceState, EyeGlobalState, EyeTimeDailyResult, EyeTimeRangeResult};
use crate::stats::{hour_value, lemma_row_sum_nonneg, row_sum};
use crate::tally::{distinct_keys, has_key, key_index, lemma_tally, pairs_view, sat, tally, tally_spec};
use crate::time::{
    civil_from_days, date_text, format_date, in_date_range, local_day, TimezoneHelper, MAX_EPOCH_DAY,
};
use crate::usage::{hour_of, ms_to_next_hour, second_in_hour};

verus! {

// ==================== recording ====================

impl EyeGlobalState {
    /// No device in use, nothing being counted.
    pub fn inactive() -> (res: Self)
        ensures
            !res.active,
            res.last_record_time is None,
    {
        EyeGlobalState { active: false, last_record_time: None }
    }
}

/// The state stored for a device that reports at `now_ms`.
pub fn device_activity(is_active: bool, now_ms: u64) -> (res: EyeDeviceState)
    ensures
        res.is_active == is_active,
        res.last_update_time == now_ms,
{
    EyeDeviceState { is_active, last_update_time: now_ms }
}

/// Some device is in use (devices without a stored state count as not in use).
pub open spec fn some_active(states: Seq<Option<EyeDeviceState>>) -> bool {
    exists|i: int| 0 <= i < states.len() && ((#[trigger] states[i]) matches Some(s) && s.is_active)
}

pub fn any_device_active(states: &Vec<Option<EyeDeviceState>>) -> (res: bool)
    ensures
        res == some_active(states@),
{
    let mut i: usize = 0;
    while i < states.len()
        invariant
            i <= states.len(),
            forall|j: int| 0 <= j < i ==> !((#[trigger] states@[j]) matches Some(s) && s.is_active),
        decreases states.len() - i,
    {
        match &states[i] {
            Some(s) => {
                if s.is_active {
                    assert(states@[i as int] matches Some(s) && s.is_active);
                    return true;
                }
            },
            None => {},
        }
        i = i + 1;
    }
    false
}

/// What a change of the devices' activity does to screen time: the span to save
/// (from the last recorded time to now), and the new global state.
#[derive(Clone, Copy, Debug, PartialEq, Eq)]
pub struct EyeTransition {
    pub save: Option<(u64, u64)>,
    pub global: EyeGlobalState,
}

/// When use stops, the span since the last record is saved and counting stops;
/// when use starts, counting starts now; while use goes on, the span since the last
/// record is saved and counting restarts now; while nothing is in use, nothing changes.
pub fn plan_eye_transition(global: &EyeGlobalState, now_active: bool, now_ms: u64) -> (res: EyeTransition)
    ensures
        res.global.active == now_active || (!global.active && !now_active),
        !global.active && !now_active ==> (res.global == *global && res.save is None),
        global.active && !now_active ==> res.global == (EyeGlobalState { active: false, last_record_time: None }),
        now_active ==> res.global == (EyeGlobalState { active: true, last_record_time: Some(now_ms) }),
        (res.save is Some) <==> (global.active && global.last_record_time is Some),
        res.save matches Some(span) ==> span == (global.last_record_time->0, now_ms),
{
    let was_active = global.active;
    if was_active && !now_active {
        let save = match global.last_record_time {
            Some(t) => Some((t, now_ms)),
            None => None,
        };
        EyeTransition { save, global: EyeGlobalState { active: false, last_record_time: None } }
    } else if !was_active && now_active {
        EyeTransition { save: None, global: EyeGlobalState { active: true, last_record_time: Some(now_ms) } }
    } else if was_active && now_active {
        let save = match global.last_record_time {
            Some(t) => Some((t, now_ms)),
            None => None,
        };
        EyeTransition { save, global: EyeGlobalState { active: true, last_record_time: Some(now_ms) } }
    } else {
        EyeTransition { save: None, global: *global }
    }
}

// ==================== splitting into hours ====================

/// The sum of the durations of segments.
pub open spec fn durations_sum(segs: Seq<(String, usize, u64)>) -> int
    decreases segs.len(),
{
    if segs.len() == 0 {
        0
    } else {
        durations_sum(segs.drop_last()) + segs.last().2 as int
    }
}

/// Where a segment that starts at `t` ends: at the next full local hour, or at `end_ms`.
pub open spec fn segment_end(offset_hours: int, t: int, end_ms: int) -> int {
    let next = t + ms_to_next_hour(offset_hours, t);
    if end_ms <= next { end_ms } else { next }
}

/// Segment `i` of `segs` is the piece of `[start_ms, end_ms)` that begins where the
/// earlier ones end and runs to the next full hour, labelled with its local date
/// and hour.
pub open spec fn segment_ok(
    offset_hours: int,
    start_ms: int,
    end_ms: int,
    segs: Seq<(String, usize, u64)>,
    i: int,
) -> bool {
    let t = start_ms + durations_sum(segs.take(i));
    let ymd = civil_from_days(local_day(offset_hours, t));
    &&& segs[i].2 == segment_end(offset_hours, t, end_ms) - t
    &&& segs[i].1 == hour_of(offset_hours, t)
    &&& segs[i].0@ == date_text(ymd.0, ymd.1, ymd.2)
}

proof fn lemma_local_day_monotone(offset_hours: int, a: int, b: int)
    requires
        0 <= a <= b,
    ensures
        local_day(offset_hours, a) <= local_day(offset_hours, b),
{
    assert(a / 1000 <= b / 1000) by (nonlinear_arith)
        requires
            0 <= a <= b,
    ;
    let x = a / 1000 + offset_hours * 3600;
    let y = b / 1000 + offset_hours * 3600;
    assert(x / 86400 <= y / 86400) by (nonlinear_arith)
        requires
            x <= y,
    ;
}

/// Splits `[start_ms, end_ms)` at the local full hours: each piece with its local
/// date, hour and length in milliseconds.
pub fn split_time_segments(start_ms: u64, end_ms: u64, tz: &TimezoneHelper) -> (res: Vec<(String, usize, u64)>)
    requires
        start_ms < end_ms ==> in_date_range(local_day(tz.offset_hours as int, start_ms as int))
            && in_date_range(local_day(tz.offset_hours as int, end_ms - 1)),
    ensures
        start_ms >= end_ms ==> res.len() == 0,
        start_ms < end_ms ==> durations_sum(res@) == end_ms - start_ms,
        forall|i: int| 0 <= i < res.len() ==> segment_ok(tz.offset_hours as int, start_ms as int, end_ms as int, res@, i),
        forall|i: int| 0 <= i < res.len() ==> 0 < (#[trigger] res@[i]).2 <= 3600000 && res@[i].1 < 24,
{
    let ghost off = tz.offset_hours as int;
    let mut segments: Vec<(String, usize, u64)> = Vec::new();
    let mut current_ms = start_ms;
    assert(segments@.take(0) =~= segments@);
    while current_ms < end_ms
        invariant
            start_ms <= current_ms,
            current_ms < end_ms ==> current_ms - start_ms == durations_sum(segments@),
            current_ms >= end_ms ==> (start_ms < end_ms && current_ms == end_ms && durations_sum(segments@) == end_ms - start_ms) || (start_ms >= end_ms && segments.len() == 0),
            start_ms < end_ms ==> in_date_range(local_day(off, start_ms as int)) && in_date_range(local_day(off, end_ms - 1)),
            off == tz.offset_hours,
            forall|i: int| 0 <= i < segments.len() ==> segment_ok(off, start_ms as int, end_ms as int, segments@, i),
            forall|i: int| 0 <= i < segments.len() ==> 0 < (#[trigger] segments@[i]).2 <= 3600000 && segments@[i].1 < 24,
        decreases end_ms - current_ms,
    {
        proof {
            lemma_local_day_monotone(off, start_ms as int, current_ms as int);
            lemma_local_day_monotone(off, current_ms as int, end_ms - 1);
        }
        let local_date = tz.get_local_date(current_ms);
        let current_hour = tz.get_local_hour(current_ms) as usize;
        let current_minute = tz.get_local_minute(current_ms) as u64;
        let current_second = tz.get_local_second(current_ms) as u64;
        proof {
            let lsd = crate::time::local_second_of_day(off, current_ms as int);
            assert(current_minute * 60 + current_second == lsd % 3600) by (nonlinear_arith)
                requires
                    current_minute == (lsd % 3600) / 60,
                    current_second == lsd % 60,
                    0 <= lsd,
            ;
            assert(current_ms as int <= 40000000000000000) by (nonlinear_arith)
                requires
                    (current_ms as int / 1000 + off * 3600) / 86400 <= MAX_EPOCH_DAY,
                    off >= i32::MIN,
            ;
        }
        let ms_in_current_pos: u64 = (current_minute * 60 + current_second) * 1000;
        let to_next_hour: u64 = 3600 * 1000 - ms_in_current_pos;
        let next = current_ms + to_next_hour;
        let segment_end = if end_ms <= next { end_ms } else { next };
        let duration_ms = segment_end - current_ms;
        let date_str = format_date(&local_date);
        let ghost before = segments@;
        segments.push((date_str, current_hour, duration_ms));
        proof {
            assert(segments@.take(before.len() as int) =~= before);
            assert(start_ms + durations_sum(segments@.take(before.len() as int)) == current_ms);
            assert(to_next_hour == ms_to_next_hour(off, current_ms as int));
            assert(local_date.days == local_day(off, current_ms as int));
            assert(segment_ok(off, start_ms as int, end_ms as int, segments@, before.len() as int));
            assert(segments@.drop_last() =~= before);
            assert(segments@.take(before.len() as int) =~= before);
            assert forall|i: int| 0 <= i < segments.len() implies segment_ok(off, start_ms as int, end_ms as int, segments@, i) by {
                if i < before.len() {
                    assert(segment_ok(off, start_ms as int, end_ms as int, before, i));
                    assert(segments@.take(i) =~= before.take(i));
                    assert(segments@[i] == before[i]);
                }
            }
        }
        current_ms = segment_end;
    }
    segments
}

/// Adds `ms` to hour `hour` of a day's screen-time record; hours past 23 are ignored.
pub fn add_eye_time(hourly: &mut Vec<u64>, hour: usize, ms: u64)
    requires
        hour < 24 ==> hour < old(hourly).len(),
    ensures
        hour < 24 ==> final(hourly)@ == old(hourly)@.update(hour as int, sat(old(hourly)@[hour as int] + ms) as u64),
        hour >= 24 ==> final(hourly)@ == old(hourly)@,
{
    if hour < 24 {
        let v = hourly[hour].saturating_add(ms);
        hourly.set(hour, v);
    }
}

// ==================== queries ====================

/// Hour `i` of the screen-time records, summed (hours past 23 are not counted).
pub open spec fn eye_hour_total(rows: Seq<DailyEyeTime>, i: int) -> int
    decreases rows.len(),
{
    if rows.len() == 0 {
        0
    } else {
        eye_hour_total(rows.drop_last(), i) + if 0 <= i < rows.last().hourly_usage@.len() && i < 24 {
            rows.last().hourly_usage@[i] as int
        } else {
            0
        }
    }
}

/// Every hour of the day, 0 to 23, sums over all records: no records give 0, and
/// one more record adds its own figure for that hour (0 where it has none).
pub proof fn lemma_eye_hour_total_adds(rows: Seq<DailyEyeTime>, r: DailyEyeTime, h: int)
    requires
        0 <= h < 24,
    ensures
        eye_hour_total(Seq::<DailyEyeTime>::empty(), h) == 0,
        eye_hour_total(rows.push(r), h) == eye_hour_total(rows, h) + hour_value(r.hourly_usage@, h),
{
    assert(rows.push(r).drop_last() =~= rows);
    assert(rows.push(r).last() == r);
}

/// A single record's hour, for each hour 0 to 23, is that day's sum for the hour.
pub proof fn lemma_eye_hour_total_one(r: DailyEyeTime, h: int)
    requires
        0 <= h < 24,
    ensures
        eye_hour_total(seq![r], h) == hour_value(r.hourly_usage@, h),
{
    lemma_eye_hour_total_adds(Seq::<DailyEyeTime>::empty(), r, h);
    assert(Seq::<DailyEyeTime>::empty().push(r) =~= seq![r]);
}

/// Milliseconds as hundredths of a minute, rounded half up.
pub open spec fn ms_to_centiminutes(ms: int) -> int {
    (ms + 300) / 600
}

fn round_to_centiminutes(ms: u64) -> (res: u64)
    ensures
        res == ms_to_centiminutes(ms as int),
{
    ms / 600 + if ms % 600 >= 300 { 1 } else { 0 }
}

/// The sum of the first `n` figures.
pub open spec fn first_hours_sum(h: Seq<u64>, n: int) -> int
    decreases n,
{
    if n <= 0 {
        0
    } else {
        first_hours_sum(h, n - 1) + h[n - 1] as int
    }
}

/// The first `n` figures summed are the sum of the record cut after `n` figures;
/// all of a record's figures summed are its sum.
pub proof fn lemma_first_hours_sum(h: Seq<u64>, n: int)
    requires
        0 <= n <= h.len(),
    ensures
        first_hours_sum(h, n) == row_sum(h.take(n)),
    decreases n,
{
    if n > 0 {
        lemma_first_hours_sum(h, n - 1);
        assert(h.take(n).drop_last() =~= h.take(n - 1));
    }
}

/// A day's screen time from its records: the total and each hour in hundredths of a
/// minute, each rounded from the (saturating) sums in milliseconds.
pub fn get_daily_minutes(rows: &Vec<DailyEyeTime>, date: &str, offset_hours: i32) -> (res: EyeTimeDailyResult)
    ensures
        res.date@ == date@,
        res.timezone_offset == offset_hours,
        res.hourly_stats.len() == 24,
        forall|h: int| 0 <= h < 24 ==> #[trigger] res.hourly_stats@[h] == ms_to_centiminutes(sat(eye_hour_total(rows@, h))),
        exists|ms: Seq<u64>| {
            &&& ms.len() == 24
            &&& (forall|h: int| 0 <= h < 24 ==> #[trigger] ms[h] == sat(eye_hour_total(rows@, h)))
            &&& res.total_usage == ms_to_centiminutes(sat(first_hours_sum(ms, 24)))
        },
        rows.len() == 1 ==> forall|h: int|
            0 <= h < 24 ==> #[trigger] res.hourly_stats@[h] == ms_to_centiminutes(hour_value(rows[0].hourly_usage@, h)),
        // A single record of all 24 hours: the day's total is the sum of all of its hours.
        rows.len() == 1 && rows[0].hourly_usage.len() == 24 && row_sum(rows[0].hourly_usage@) <= u64::MAX
            ==> res.total_usage == ms_to_centiminutes(row_sum(rows[0].hourly_usage@)),
{
    proof {
        if rows.len() == 1 {
            assert(rows@ =~= seq![rows@[0]]);
            assert forall|h: int| 0 <= h < 24 implies eye_hour_total(rows@, h) == hour_value(rows[0].hourly_usage@, h) by {
                lemma_eye_hour_total_one(rows@[0], h);
            }
        }
    }
    let mut hourly: Vec<u64> = Vec::new();
    let mut k: usize = 0;
    while k < 24
        invariant
            k <= 24,
            hourly.len() == k,
            forall|h: int| 0 <= h < k ==> #[trigger] hourly@[h] == 0,
        decreases 24 - k,
    {
        hourly.push(0);
        k = k + 1;
    }
    let mut i: usize = 0;
    assert(rows@.take(0) =~= Seq::<DailyEyeTime>::empty());
    while i < rows.len()
        invariant
            i <= rows.len(),
            hourly.len() == 24,
            forall|h: int| 0 <= h < 24 ==> #[trigger] hourly@[h] == sat(eye_hour_total(rows@.take(i as int), h)),
        decreases rows.len() - i,
    {
        assert(rows@.take(i + 1).drop_last() =~= rows@.take(i as int));
        assert(rows@.take(i + 1).last() == rows@[i as int]);
        let row = &rows[i];
        let mut h: usize = 0;
        while h < 24
            invariant
                h <= 24,
                hourly.len() == 24,
                forall|x: int| 0 <= x < h ==> #[trigger] hourly@[x] == sat(eye_hour_total(rows@.take(i + 1), x)),
                forall|x: int| h <= x < 24 ==> #[trigger] hourly@[x] == sat(eye_hour_total(rows@.take(i as int), x)),
                i < rows.len(),
                rows@.take(i + 1).drop_last() == rows@.take(i as int),
                rows@.take(i + 1).last() == *row,
            decreases 24 - h,
        {
            assert(eye_hour_total(rows@.take(i + 1), h as int) == eye_hour_total(rows@.take(i as int), h as int)
                + if h < row.hourly_usage@.len() { row.hourly_usage@[h as int] as int } else { 0 });
            if h < row.hourly_usage.len() {
                let v = hourly[h].saturating_add(row.hourly_usage[h]);
                hourly.set(h, v);
            }
            h = h + 1;
        }
        i = i + 1;
    }
    assert(rows@.take(rows.len() as int) =~= rows@);
    let mut total: u64 = 0;
    let mut rounded: Vec<u64> = Vec::new();
    let mut j: usize = 0;
    while j < 24
        invariant
            j <= 24,
            hourly.len() == 24,
            rounded.len() == j,
            total == sat(first_hours_sum(hourly@, j as int)),
            forall|h: int| 0 <= h < j ==> #[trigger] rounded@[h] == ms_to_centiminutes(hourly@[h] as int),
        decreases 24 - j,
    {
        total = total.saturating_add(hourly[j]);
        rounded.push(round_to_centiminutes(hourly[j]));
        j = j + 1;
    }
    proof {
        if rows.len() == 1 && rows[0].hourly_usage.len() == 24 {
            let r = rows@[0].hourly_usage@;
            assert(rows@ =~= seq![rows@[0]]);
            assert forall|h: int| 0 <= h < 24 implies hourly@[h] == r[h] by {
                lemma_eye_hour_total_one(rows@[0], h);
            }
            assert(hourly@ =~= r);
            lemma_first_hours_sum(r, 24);
            assert(r.take(24) =~= r);
        }
    }
    EyeTimeDailyResult {
        date: date.to_owned(),
        total_usage: round_to_centiminutes(total),
        hourly_stats: rounded,
        timezone_offset: offset_hours,
    }
}

/// (date, total of the record) for each screen-time record.
pub open spec fn eye_date_items(rows: Seq<DailyEyeTime>) -> Seq<(Seq<char>, u64)>
    decreases rows.len(),
{
    if rows.len() == 0 {
        seq![]
    } else {
        eye_date_items(rows.drop_last()).push((rows.last().date@, sat(row_sum(rows.last().hourly_usage@)) as u64))
    }
}

/// Each record's item carries its date and the (saturating) sum of all of its
/// hourly figures, every hour of the record included.
pub proof fn lemma_eye_date_items(rows: Seq<DailyEyeTime>)
    ensures
        eye_date_items(rows).len() == rows.len(),
        forall|k: int|
            0 <= k < rows.len() ==> #[trigger] eye_date_items(rows)[k] == (
                rows[k].date@,
                sat(row_sum(rows[k].hourly_usage@)) as u64,
            ),
    decreases rows.len(),
{
    if rows.len() > 0 {
        lemma_eye_date_items(rows.drop_last());
        assert forall|k: int| 0 <= k < rows.len() implies #[trigger] eye_date_items(rows)[k] == (
            rows[k].date@,
            sat(row_sum(rows[k].hourly_usage@)) as u64,
        ) by {
            if k < rows.len() - 1 {
                assert(rows.drop_last()[k] == rows[k]);
            }
        }
    }
}

/// With at most one record per date, the daily totals of a week or a month are the
/// records in their order, each with the sum of all of its hours (saturating).
pub proof fn lemma_eye_totals_one_record_per_day(rows: Seq<DailyEyeTime>)
    requires
        forall|i: int, j: int| 0 <= i < j < rows.len() ==> rows[i].date@ != rows[j].date@,
    ensures
        tally_spec(eye_date_items(rows)).len() == rows.len(),
        forall|k: int|
            0 <= k < rows.len() ==> #[trigger] tally_spec(eye_date_items(rows))[k] == (
                rows[k].date@,
                sat(row_sum(rows[k].hourly_usage@)) as u64,
            ),
    decreases rows.len(),
{
    lemma_eye_date_items(rows);
    if rows.len() > 0 {
        let pre = rows.drop_last();
        assert forall|i: int, j: int| 0 <= i < j < pre.len() implies pre[i].date@ != pre[j].date@ by {
            assert(pre[i] == rows[i]);
            assert(pre[j] == rows[j]);
        }
        lemma_eye_totals_one_record_per_day(pre);
        let items = eye_date_items(rows);
        assert(items.drop_last() == eye_date_items(pre));
        let r = tally_spec(items.drop_last());
        let key = items.last().0;
        lemma_tally(items.drop_last());
        lemma_eye_date_items(pre);
        if has_key(items.drop_last(), key) {
            let w = choose|i: int| 0 <= i < items.drop_last().len() && items.drop_last()[i].0 == key;
            assert(items.drop_last()[w] == items[w]);
            assert(rows[w].date@ == rows[rows.len() - 1].date@);
            assert(false);
        }
        assert(!has_key(r, key));
        assert(key_index(r, key) == -1);
        assert forall|k: int| 0 <= k < rows.len() implies #[trigger] tally_spec(items)[k] == (
            rows[k].date@,
            sat(row_sum(rows[k].hourly_usage@)) as u64,
        ) by {
            if k < rows.len() - 1 {
                assert(pre[k] == rows[k]);
                assert(tally_spec(eye_date_items(pre))[k] == (pre[k].date@, sat(row_sum(pre[k].hourly_usage@)) as u64));
            }
        }
    }
}

fn eye_daily_totals(rows: &Vec<DailyEyeTime>) -> (res: Vec<(String, u64)>)
    ensures
        pairs_view(res@) == tally_spec(eye_date_items(rows@)),
{
    let mut items: Vec<(String, u64)> = Vec::new();
    let mut i: usize = 0;
    assert(rows@.take(0) =~= Seq::<DailyEyeTime>::empty());
    assert(pairs_view(items@) =~= Seq::<(Seq<char>, u64)>::empty());
    while i < rows.len()
        invariant
            i <= rows.len(),
            pairs_view(items@) == eye_date_items(rows@.take(i as int)),
        decreases rows.len() - i,
    {
        assert(rows@.take(i + 1).drop_last() =~= rows@.take(i as int));
        assert(rows@.take(i + 1).last() == rows@[i as int]);
        let t = crate::stats::sum_saturating(&rows[i].hourly_usage);
        let ghost before = items@;
        items.push((rows[i].date.clone(), t));
        assert(pairs_view(items@) =~= pairs_view(before).push((rows@[i as int].date@, t)));
        i = i + 1;
    }
    assert(rows@.take(rows.len() as int) =~= rows@);
    tally(&items)
}

proof fn lemma_one_record_per_day_totals(rows: Seq<DailyEyeTime>, totals: Seq<(String, u64)>)
    requires
        pairs_view(totals) == tally_spec(eye_date_items(rows)),
    ensures
        (forall|i: int, j: int| 0 <= i < j < rows.len() ==> rows[i].date@ != rows[j].date@) ==> {
            &&& totals.len() == rows.len()
            &&& forall|k: int|
                0 <= k < rows.len() ==> #[trigger] totals[k].0@ == rows[k].date@ && totals[k].1 == sat(
                    row_sum(rows[k].hourly_usage@),
                )
        },
{
    if forall|i: int, j: int| 0 <= i < j < rows.len() ==> rows[i].date@ != rows[j].date@ {
        lemma_eye_totals_one_record_per_day(rows);
        assert(pairs_view(totals).len() == totals.len());
        assert forall|k: int| 0 <= k < rows.len() implies #[trigger] totals[k].0@ == rows[k].date@ && totals[k].1
            == sat(row_sum(rows[k].hourly_usage@)) by {
            assert(pairs_view(totals)[k] == (totals[k].0@, totals[k].1));
            lemma_row_sum_nonneg(rows[k].hourly_usage@);
            assert(tally_spec(eye_date_items(rows))[k] == (rows[k].date@, sat(row_sum(rows[k].hourly_usage@)) as u64));
        }
    }
}

/// A week's screen time per day (milliseconds), from the records of the week `range`.
pub fn get_weekly_minutes(rows: &Vec<DailyEyeTime>, week_offset: i32, offset_hours: i32, range: DateRange) -> (res: EyeTimeRangeResult)
    ensures
        pairs_view(res.daily_totals@) == tally_spec(eye_date_items(rows@)),
        (forall|i: int, j: int| 0 <= i < j < rows.len() ==> rows@[i].date@ != rows@[j].date@) ==> {
            &&& res.daily_totals.len() == rows.len()
            &&& forall|k: int|
                0 <= k < rows.len() ==> #[trigger] res.daily_totals@[k].0@ == rows@[k].date@ && res.daily_totals@[k].1
                    == sat(row_sum(rows@[k].hourly_usage@))
        },
        res.week_offset == Some(week_offset),
        res.month_offset is None,
        res.week_range == Some(range),
        res.month_range is None,
        res.timezone_offset == offset_hours,
{
    let totals = eye_daily_totals(rows);
    proof {
        lemma_one_record_per_day_totals(rows@, totals@);
    }
    EyeTimeRangeResult {
        week_offset: Some(week_offset),
        month_offset: None,
        week_range: Some(range),
        month_range: None,
        daily_totals: totals,
        timezone_offset: offset_hours,
    }
}

/// A month's screen time per day (milliseconds), from the records of the month `range`.
pub fn get_monthly_minutes(rows: &Vec<DailyEyeTime>, month_offset: i32, offset_hours: i32, range: DateRange) -> (res: EyeTimeRangeResult)
    ensures
        pairs_view(res.daily_totals@) == tally_spec(eye_date_items(rows@)),
        (forall|i: int, j: int| 0 <= i < j < rows.len() ==> rows@[i].date@ != rows@[j].date@) ==> {
            &&& res.daily_totals.len() == rows.len()
            &&& forall|k: int|
                0 <= k < rows.len() ==> #[trigger] res.daily_totals@[k].0@ == rows@[k].date@ && res.daily_totals@[k].1
                    == sat(row_sum(rows@[k].hourly_usage@))
        },
        res.month_offset == Some(month_offset),
        res.week_offset is None,
        res.month_range == Some(range),
        res.week_range is None,
        res.timezone_offset == offset_hours,
{
    let totals = eye_daily_totals(rows);
    proof {
        lemma_one_record_per_day_totals(rows@, totals@);
    }
    EyeTimeRangeResult {
        week_offset: None,
        month_offset: Some(month_offset),
        week_range: None,
        month_range: Some(range),
        daily_totals: totals,
        timezone_offset: offset_hours,
    }
}

} // verus!
