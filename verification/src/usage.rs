//! Spreading an app's usage time over the local hours it covered.
//!
//! Starting at the moment the app came to the foreground, the minutes are added
//! hour by hour: each hour takes at most what is left of it until the next full
//! hour, and never more than brings it to 60 minutes. Hours of the start day go
//! to that day's record, which the caller holds; hours of later days go to the
//! records of those days, which the caller reads and writes back one at a time.
//! The spreading stops when less than two hundredths of a minute are left, or
//! after thirty days.
use vstd::prelude::*;
use crate::time::{
    in_date_range, local_day, local_second_of_day, LocalDate, TimezoneHelper, date_from_days,
};

verus! {

/// An hour holds at most 60 minutes (in hundredths).
pub const MAX_HOUR_CENTIMINUTES: u64 = 6000;

/// How far past the start the spreading goes before it gives up: thirty days.
pub const DISTRIBUTION_LIMIT_MS: u64 = 2592000000;

/// Seconds since the start of the local hour.
pub open spec fn second_in_hour(offset_hours: int, ms: int) -> int {
    local_second_of_day(offset_hours, ms) % 3600
}

/// The local hour (0 to 23).
pub open spec fn hour_of(offset_hours: int, ms: int) -> int {
    local_second_of_day(offset_hours, ms) / 3600
}

/// The minutes until the next full hour, in hundredths, rounded half up.
pub open spec fn centi_to_next_hour(offset_hours: int, ms: int) -> int {
    ((3600 - second_in_hour(offset_hours, ms)) * 10 + 3) / 6
}

/// The milliseconds from `ms`, with its milliseconds dropped, to the next full hour.
pub open spec fn ms_to_next_hour(offset_hours: int, ms: int) -> int {
    (3600 - second_in_hour(offset_hours, ms)) * 1000
}

pub open spec fn min3(a: int, b: int, c: int) -> int {
    let m = if a <= b { a } else { b };
    if m <= c { m } else { c }
}

/// What one step adds to an hour that already holds `cell`: the least of what is
/// left, what is left of the hour, and what brings the hour to 60 minutes.
pub open spec fn hour_addition(remaining: int, cell: int, offset_hours: int, ms: int) -> int {
    if cell < 6000 {
        min3(remaining, centi_to_next_hour(offset_hours, ms), 6000 - cell)
    } else {
        0
    }
}

/// From `before` to `after`, no hour of a day's record shrinks and none that held
/// at most 60 minutes goes past 60 minutes.
pub open spec fn hours_grow_within(before: Seq<u64>, after: Seq<u64>) -> bool {
    &&& after.len() == before.len()
    &&& forall|i: int| 0 <= i < before.len() ==> before[i] <= #[trigger] after[i]
    &&& forall|i: int| 0 <= i < before.len() && before[i] <= MAX_HOUR_CENTIMINUTES ==> #[trigger] after[i]
        <= MAX_HOUR_CENTIMINUTES
}

/// Over a whole spreading, each record's hours only grow and stay within 60
/// minutes: when every step (here the records of one day, from one step to the
/// next) keeps that, so does the run from its first record to its last.
pub proof fn lemma_run_grows_within(records: Seq<Seq<u64>>)
    requires
        records.len() >= 1,
        forall|j: int| 0 < j < records.len() ==> hours_grow_within(records[j - 1], #[trigger] records[j]),
    ensures
        hours_grow_within(records[0], records[records.len() - 1]),
    decreases records.len(),
{
    if records.len() > 1 {
        let pre = records.drop_last();
        assert forall|j: int| 0 < j < pre.len() implies hours_grow_within(pre[j - 1], #[trigger] pre[j]) by {
            assert(pre[j - 1] == records[j - 1]);
            assert(pre[j] == records[j]);
        }
        lemma_run_grows_within(pre);
        let n = records.len() - 1;
        assert(hours_grow_within(records[n - 1], records[n]));
        assert(pre[pre.len() - 1] == records[n - 1]);
    }
}

/// One step of a spreading, taken on the record `before_hours` of the current day:
/// the current hour gains what `remaining` loses, and nothing else changes.
pub open spec fn step_taken(
    before: Distribution,
    before_hours: Seq<u64>,
    after: Distribution,
    after_hours: Seq<u64>,
) -> bool {
    &&& 0 <= before.hour() < before_hours.len()
    &&& after_hours == before_hours.update(
        before.hour(),
        (before_hours[before.hour()] + before.addition(before_hours)) as u64,
    )
    &&& after.remaining == before.remaining - before.addition(before_hours)
}

/// A step only adds to its hour, and never beyond 60 minutes.
pub proof fn lemma_step_grows_within(
    before: Distribution,
    before_hours: Seq<u64>,
    after: Distribution,
    after_hours: Seq<u64>,
)
    requires
        step_taken(before, before_hours, after, after_hours),
    ensures
        hours_grow_within(before_hours, after_hours),
        before_hours[before.hour()] + before.addition(before_hours) == after_hours[before.hour()],
{
    let k = before.hour();
    let off = before.tz.offset_hours as int;
    let ms = before.current_ms as int;
    let cell = before_hours[k] as int;
    let s = second_in_hour(off, ms);
    assert(0 <= s < 3600);
    assert(centi_to_next_hour(off, ms) >= 0);
    let a = before.addition(before_hours);
    assert(0 <= a);
    assert(cell < 6000 ==> a <= 6000 - cell);
    assert(cell >= 6000 ==> a == 0);
    assert(after_hours[k] == cell + a);
}

/// Over a whole spreading, each record's hours only grow and none passes 60
/// minutes: `versions` are the record of one day as the spreading goes on, and
/// `states` the spreading beside them; from one to the next either a step was
/// taken on this record or the record stayed as it was (the step went to
/// another day's record).
pub proof fn lemma_spreading_grows_within(states: Seq<Distribution>, versions: Seq<Seq<u64>>)
    requires
        versions.len() >= 1,
        states.len() == versions.len(),
        forall|j: int|
            0 < j < versions.len() ==> #[trigger] versions[j] == versions[j - 1] || step_taken(
                states[j - 1],
                versions[j - 1],
                states[j],
                versions[j],
            ),
    ensures
        hours_grow_within(versions[0], versions[versions.len() - 1]),
{
    assert forall|j: int| 0 < j < versions.len() implies hours_grow_within(versions[j - 1], #[trigger] versions[j]) by {
        if versions[j] != versions[j - 1] {
            lemma_step_grows_within(states[j - 1], versions[j - 1], states[j], versions[j]);
        }
    }
    lemma_run_grows_within(versions);
}

/// What the caller does next.
#[derive(Clone, Copy, Debug, PartialEq, Eq)]
pub enum DistributeStep {
    /// Add to the given hour of the start day's record.
    StartDay { hour: usize },
    /// Read the record of `date`, add to the given hour, and write it back if anything was added.
    OtherDay { date: LocalDate, hour: usize },
    /// Nothing more to add.
    Done,
}

/// The state of one spreading of usage time.
#[derive(Clone, Copy, Debug, PartialEq, Eq)]
pub struct Distribution {
    pub tz: TimezoneHelper,
    pub start_ms: u64,
    pub current_ms: u64,
    /// Hundredths of a minute not yet added.
    pub remaining: u64,
    pub start_day: i64,
    pub finished: bool,
    /// The spreading stopped at the thirty-day limit with time left over.
    pub limit_reached: bool,
}

impl Distribution {
    pub open spec fn wf(self) -> bool {
        &&& self.start_ms <= self.current_ms
        &&& self.start_day == local_day(self.tz.offset_hours as int, self.start_ms as int)
        &&& self.limit_reached ==> self.finished
    }

    /// Nothing more will be added.
    pub open spec fn is_done(self) -> bool {
        self.finished || self.remaining <= 1
    }

    /// The current position has a date in chrono's range.
    pub open spec fn position_defined(self) -> bool {
        in_date_range(local_day(self.tz.offset_hours as int, self.current_ms as int))
    }

    /// The local hour of the current position.
    pub open spec fn hour(self) -> int {
        hour_of(self.tz.offset_hours as int, self.current_ms as int)
    }

    /// What the next step adds to the record `hourly` of the current day.
    pub open spec fn addition(self, hourly: Seq<u64>) -> int {
        hour_addition(
            self.remaining as int,
            hourly[self.hour()] as int,
            self.tz.offset_hours as int,
            self.current_ms as int,
        )
    }

    /// Starts spreading `total` hundredths of a minute from `start_ms` on.
    pub fn begin(tz: TimezoneHelper, start_ms: u64, total: u64) -> (res: Self)
        ensures
            res.wf(),
            res.tz == tz,
            res.start_ms == start_ms,
            res.current_ms == start_ms,
            res.remaining == total,
            !res.finished,
            !res.limit_reached,
    {
        let start_day = tz.local_day_number(start_ms);
        Distribution {
            tz,
            start_ms,
            current_ms: start_ms,
            remaining: total,
            start_day,
            finished: false,
            limit_reached: false,
        }
    }

    pub fn is_done_now(&self) -> (res: bool)
        ensures
            res == self.is_done(),
    {
        self.finished || self.remaining <= 1
    }

    pub fn position_in_range(&self) -> (res: bool)
        ensures
            res == self.position_defined(),
    {
        let d = self.tz.local_day_number(self.current_ms);
        crate::time::MIN_EPOCH_DAY <= d && d <= crate::time::MAX_EPOCH_DAY
    }

    /// Which record and hour the next step adds to.
    pub fn next_step(&self) -> (res: DistributeStep)
        requires
            self.wf(),
            self.is_done() || self.position_defined(),
        ensures
            self.is_done() ==> res == DistributeStep::Done,
            !self.is_done() ==> match res {
                DistributeStep::StartDay { hour } => local_day(self.tz.offset_hours as int, self.current_ms as int)
                    == self.start_day && hour as int == hour_of(self.tz.offset_hours as int, self.current_ms as int),
                DistributeStep::OtherDay { date, hour } => date.wf() && date.days as int == local_day(
                    self.tz.offset_hours as int,
                    self.current_ms as int,
                ) && date.days != self.start_day && hour as int == hour_of(
                    self.tz.offset_hours as int,
                    self.current_ms as int,
                ),
                DistributeStep::Done => false,
            },
    {
        if self.is_done_now() {
            return DistributeStep::Done;
        }
        let day = self.tz.local_day_number(self.current_ms);
        let hour = self.tz.get_local_hour(self.current_ms) as usize;
        if day == self.start_day {
            DistributeStep::StartDay { hour }
        } else {
            DistributeStep::OtherDay { date: date_from_days(day), hour }
        }
    }

    /// Adds to the current hour of `hourly` (the record of the current day) and moves
    /// on to the next full hour; tells whether anything was added.
    pub fn apply(&mut self, hourly: &mut Vec<u64>) -> (added: bool)
        requires
            old(self).wf(),
            !old(self).is_done(),
            old(self).position_defined(),
            hour_of(old(self).tz.offset_hours as int, old(self).current_ms as int) < old(hourly).len(),
        ensures
            final(hourly)@ == old(hourly)@.update(
                old(self).hour(),
                (old(hourly)@[old(self).hour()] + old(self).addition(old(hourly)@)) as u64,
            ),
            final(self).remaining == old(self).remaining - old(self).addition(old(hourly)@),
            added == (old(self).addition(old(hourly)@) > 0),
            final(self).wf(),
            final(self).tz == old(self).tz,
            final(self).start_ms == old(self).start_ms,
            final(self).start_day == old(self).start_day,
            final(self).remaining > 1 ==> final(self).current_ms == old(self).current_ms + ms_to_next_hour(
                old(self).tz.offset_hours as int,
                old(self).current_ms as int,
            ),
            final(self).remaining > 1 ==> final(self).finished == (final(self).current_ms - old(self).start_ms
                > DISTRIBUTION_LIMIT_MS),
            final(self).remaining > 1 ==> final(self).limit_reached == final(self).finished,
            final(self).remaining <= 1 ==> final(self).current_ms == old(self).current_ms,
            // While time is left, each step moves at least a second on, and never past the limit.
            !final(self).is_done() ==> final(self).current_ms >= old(self).current_ms + 1000
                && final(self).current_ms - final(self).start_ms <= DISTRIBUTION_LIMIT_MS,
            final(self).remaining <= 1 ==> final(self).finished && !final(self).limit_reached,
            // Time is neither lost nor made up: the hour gains what `remaining` loses.
            final(hourly)@[hour_of(old(self).tz.offset_hours as int, old(self).current_ms as int)]
                + final(self).remaining == old(hourly)@[hour_of(
                old(self).tz.offset_hours as int,
                old(self).current_ms as int,
            )] + old(self).remaining,
            // No hour is filled beyond 60 minutes.
            old(hourly)@[hour_of(old(self).tz.offset_hours as int, old(self).current_ms as int)] <= MAX_HOUR_CENTIMINUTES
                ==> final(hourly)@[hour_of(old(self).tz.offset_hours as int, old(self).current_ms as int)]
                <= MAX_HOUR_CENTIMINUTES,
            final(hourly)@.len() == old(hourly)@.len(),
            hours_grow_within(old(hourly)@, final(hourly)@),
            step_taken(*old(self), old(hourly)@, *final(self), final(hourly)@),
    {
        let off = self.tz.offset_hours;
        let cur = self.current_ms;
        let hour = self.tz.get_local_hour(cur) as usize;
        let minute = self.tz.get_local_minute(cur) as u64;
        let second = self.tz.get_local_second(cur) as u64;
        let sih: u64 = minute * 60 + second;
        proof {
            let lsd = local_second_of_day(off as int, cur as int);
            assert(sih == lsd % 3600) by (nonlinear_arith)
                requires
                    minute == (lsd % 3600) / 60,
                    second == lsd % 60,
                    sih == minute * 60 + second,
                    0 <= lsd,
            ;
        }
        let centi_left: u64 = ((3600 - sih) * 10 + 3) / 6;
        let cell = hourly[hour];
        let add: u64 = if cell < MAX_HOUR_CENTIMINUTES {
            let room = MAX_HOUR_CENTIMINUTES - cell;
            let m = if self.remaining <= centi_left { self.remaining } else { centi_left };
            if m <= room { m } else { room }
        } else {
            0
        };
        hourly.set(hour, cell + add);
        self.remaining = self.remaining - add;
        if self.remaining > 1 {
            proof {
                let lsec = local_second_of_day(off as int, cur as int);
                assert(cur as int / 1000 + off as int * 3600 < (crate::time::MAX_EPOCH_DAY + 1) * 86400) by (nonlinear_arith)
                    requires
                        (cur as int / 1000 + off as int * 3600) / 86400 <= crate::time::MAX_EPOCH_DAY,
                ;
                assert(cur as int <= 40000000000000000) by (nonlinear_arith)
                    requires
                        cur as int / 1000 + off as int * 3600 < (crate::time::MAX_EPOCH_DAY + 1) * 86400,
                        off as int >= i32::MIN,
                ;
            }
            self.current_ms = cur + (3600 - sih) * 1000;
            if self.current_ms - self.start_ms > DISTRIBUTION_LIMIT_MS {
                self.finished = true;
                self.limit_reached = true;
            }
        } else {
            self.finished = true;
        }
        add > 0
    }
}

} // verus!
