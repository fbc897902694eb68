//! Reading a store's weekly hours: the hours of a given day, the week in
//! order, whether the store is open at a moment, and when it next opens.

use crate::calendar::{chrono_add_days, weekday_index_of_day, Date, DateTime, TimeOfDay, Weekday, MAX_DAYS};
use crate::models::{
    days_forward, days_until_weekday, BusinessHours, BusinessStatusResponse, Store, StoreView,
    TodayHours,
};
use vstd::prelude::*;

verus! {

broadcast use vstd::string::to_string_from_display_ensures_for_str;

/// The first entry of `hours`, from position `i` on, for weekday `w`.
pub open spec fn first_for_day_from(hours: Seq<BusinessHours>, w: Weekday, i: int) -> Option<
    BusinessHours,
>
    decreases hours.len() - i,
{
    if i < 0 || i >= hours.len() {
        None
    } else if hours[i].weekday == w {
        Some(hours[i])
    } else {
        first_for_day_from(hours, w, i + 1)
    }
}

/// The first entry of `hours` for weekday `w`.
pub open spec fn first_for_day(hours: Seq<BusinessHours>, w: Weekday) -> Option<BusinessHours> {
    first_for_day_from(hours, w, 0)
}

/// The first entry of `hours` for weekday `w`, if there is one.
pub fn find_day(hours: &[BusinessHours], w: Weekday) -> (r: Option<BusinessHours>)
    ensures
        r == first_for_day(hours@, w),
{
    let mut i: usize = 0;
    while i < hours.len()
        invariant
            i <= hours.len(),
            first_for_day(hours@, w) == first_for_day_from(hours@, w, i as int),
        decreases hours.len() - i,
    {
        if hours[i].weekday == w {
            return Some(hours[i]);
        }
        i += 1;
    }
    None
}

/// Whether the store opens at all on weekday `w`.
pub open spec fn day_is_open(hours: Seq<BusinessHours>, w: Weekday) -> bool {
    match first_for_day(hours, w) {
        Some(h) => !h.is_closed,
        None => false,
    }
}

/// Whether the store opens later today, on hours that end before midnight.
pub open spec fn opens_later_today(hours: Seq<BusinessHours>, today: Weekday, now: TimeOfDay) -> bool {
    match first_for_day(hours, today) {
        Some(h) => !h.is_closed && now.precedes(h.open_time) && h.open_time.precedes(h.close_time),
        None => false,
    }
}

/// The first `k` from `i` up to 7 such that the store opens `k` weekdays
/// after `today`; 8 where there is none.
pub open spec fn next_open_step(hours: Seq<BusinessHours>, today: Weekday, i: int) -> int
    decreases 8 - i,
{
    if i >= 8 {
        8
    } else if day_is_open(hours, Weekday::at(today.index() + i)) {
        i
    } else {
        next_open_step(hours, today, i + 1)
    }
}

/// The day number of the next day after `date` that falls on the weekday
/// `i` weekdays after `today`.
pub open spec fn step_day(date: Date, today: Weekday, i: int) -> int {
    date.days + days_forward(
        weekday_index_of_day(date.days as int),
        Weekday::at(today.index() + i).index(),
    )
}

/// Whether every date that the search for the next opening passes through
/// lies in the calendar's range.
pub open spec fn next_open_fits(
    hours: Seq<BusinessHours>,
    today: Weekday,
    now: TimeOfDay,
    date: Date,
) -> bool {
    ||| opens_later_today(hours, today, now)
    ||| forall|i: int|
        1 <= i <= next_open_step(hours, today, 1) && i <= 7 ==> #[trigger] step_day(date, today, i)
            <= MAX_DAYS
}

/// When the store next opens, seen at time `now` of `date`, a `today`: later
/// today where today's hours start later and end before midnight; else at the
/// opening time of the first of the next seven weekdays on which it opens, on
/// the next date with that weekday; `None` where it opens on none of them.
pub open spec fn next_open(hours: Seq<BusinessHours>, today: Weekday, now: TimeOfDay, date: Date) -> Option<
    DateTime,
> {
    if opens_later_today(hours, today, now) {
        Some(DateTime { date, time: first_for_day(hours, today)->0.open_time })
    } else {
        let k = next_open_step(hours, today, 1);
        if k <= 7 {
            Some(
                DateTime {
                    date: Date { days: step_day(date, today, k) as i32 },
                    time: first_for_day(hours, Weekday::at(today.index() + k))->0.open_time,
                },
            )
        } else {
            None
        }
    }
}

proof fn lemma_step_at_least(hours: Seq<BusinessHours>, today: Weekday, i: int)
    requires
        i <= 8,
    ensures
        i <= next_open_step(hours, today, i) <= 8,
    decreases 8 - i,
{
    if i < 8 && !day_is_open(hours, Weekday::at(today.index() + i)) {
        lemma_step_at_least(hours, today, i + 1);
    }
}

proof fn lemma_at_mod(x: int)
    requires
        x >= 0,
    ensures
        Weekday::at(x % 7) == Weekday::at(x),
        Weekday::at(x).index() == x % 7,
{
    assert((x % 7) % 7 == x % 7) by (nonlinear_arith)
        requires
            x >= 0,
    ;
}

/// When the store next opens, seen at `current_time` on `current_date`, a
/// `current_weekday` (see `next_open`).
pub fn find_next_open_time(
    hours: &[BusinessHours],
    current_weekday: Weekday,
    current_time: TimeOfDay,
    current_date: Date,
) -> (r: Option<DateTime>)
    requires
        current_date.wf(),
        next_open_fits(hours@, current_weekday, current_time, current_date),
    ensures
        r == next_open(hours@, current_weekday, current_time, current_date),
{
    let today_hours = find_day(hours, current_weekday);
    if let Some(h) = today_hours {
        if !h.is_closed && current_time.is_before(&h.open_time) && h.open_time.is_before(
            &h.close_time,
        ) {
            return Some(DateTime { date: current_date, time: h.open_time });
        }
    }
    let current_idx = current_weekday.num_days_from_monday();
    let mut i: u32 = 1;
    while i <= 7
        invariant
            1 <= i <= 8,
            current_date.wf(),
            current_idx == current_weekday.index(),
            !opens_later_today(hours@, current_weekday, current_time),
            next_open_fits(hours@, current_weekday, current_time, current_date),
            next_open_step(hours@, current_weekday, 1) == next_open_step(
                hours@,
                current_weekday,
                i as int,
            ),
        decreases 8 - i,
    {
        let idx = (current_idx + i) % 7;
        let weekday = Weekday::from_days_from_monday(idx);
        proof {
            lemma_at_mod(current_idx + i);
            lemma_at_mod(idx as int);
            lemma_step_at_least(hours@, current_weekday, i as int);
        }
        assert(weekday == Weekday::at(current_weekday.index() + i));
        let days_offset = days_until_weekday(current_date, weekday);
        assert(step_day(current_date, current_weekday, i as int) <= MAX_DAYS);
        let target_date = chrono_add_days(current_date, days_offset).unwrap();
        if let Some(h) = find_day(hours, weekday) {
            if !h.is_closed {
                return Some(DateTime { date: target_date, time: h.open_time });
            }
        }
        i += 1;
    }
    None
}

/// Whether a store is open at a moment, as its status text tells it.
#[derive(Clone, Copy, Debug, PartialEq, Eq, Structural)]
pub enum Availability {
    /// Within today's hours.
    Open,
    /// Open today, but not at this time.
    Resting,
    /// Today is a closed day.
    ClosedToday,
    /// No hours are set for today.
    NotSet,
}

/// The weekday of the moment `now`.
pub open spec fn today_of(now: DateTime) -> Weekday {
    Weekday::at(weekday_index_of_day(now.date.days as int))
}

/// Whether the store with these hours is open at `now`.
pub open spec fn availability(hours: Seq<BusinessHours>, now: DateTime) -> Availability {
    match first_for_day(hours, today_of(now)) {
        Some(h) => if h.is_closed {
            Availability::ClosedToday
        } else if h.covers(now.time) {
            Availability::Open
        } else {
            Availability::Resting
        },
        None => Availability::NotSet,
    }
}

/// The status text of each availability.
pub open spec fn status_text(a: Availability) -> Seq<char> {
    match a {
        Availability::Open => "营业中"@,
        Availability::Resting => "休息中"@,
        Availability::ClosedToday => "今日休息"@,
        Availability::NotSet => "未设置营业时间"@,
    }
}

/// When the store, open at `now` under hours `h`, closes: today, or
/// tomorrow where the hours run past midnight and it opened today.
pub open spec fn closing_time(h: BusinessHours, now: DateTime) -> DateTime {
    if h.spans_midnight() && !now.time.precedes(h.open_time) {
        DateTime { date: Date { days: (now.date.days + 1) as i32 }, time: h.close_time }
    } else {
        DateTime { date: now.date, time: h.close_time }
    }
}

/// Whether the dates that the status at `now` passes through lie in the
/// calendar's range.
pub open spec fn status_fits(hours: Seq<BusinessHours>, now: DateTime) -> bool {
    if availability(hours, now) == Availability::Open {
        let h = first_for_day(hours, today_of(now))->0;
        h.spans_midnight() && !now.time.precedes(h.open_time) ==> now.date.days + 1 <= MAX_DAYS
    } else {
        next_open_fits(hours, today_of(now), now.time, now.date)
    }
}

impl BusinessStatusResponse {
    /// Whether this answer tells, for `store` with these hours, whether it is
    /// open at `now` and when it next opens or closes: open exactly within
    /// today's hours; then the closing time is given and no opening time;
    /// otherwise the next opening time (see `next_open`) and no closing time.
    pub open spec fn reports(self, store: StoreView, hours: Seq<BusinessHours>, now: DateTime) -> bool {
        let today = today_of(now);
        let found = first_for_day(hours, today);
        let a = availability(hours, now);
        &&& self.store_id == store.id
        &&& self.store_name@ == store.name
        &&& self.weekday == today
        &&& self.current_time == now.time
        &&& self.today_hours == (match found {
            Some(h) => Some(TodayHours::of(h)),
            None => None,
        })
        &&& self.is_open == (a == Availability::Open)
        &&& self.is_open == (match found {
            Some(h) => h.covers(now.time),
            None => false,
        })
        &&& self.current_status@ == status_text(a)
        &&& self.next_close_time == (if a == Availability::Open {
            Some(closing_time(found->0, now))
        } else {
            None
        })
        &&& self.next_open_time == (if a == Availability::Open {
            None
        } else {
            next_open(hours, today, now.time, now.date)
        })
    }
}

/// Whether the dates that the status at `now` passes through (see
/// `status_fits`) lie in the calendar's range.
pub fn status_fits_calendar(hours: &[BusinessHours], now: DateTime) -> (r: bool)
    requires
        now.wf(),
    ensures
        r == status_fits(hours@, now),
{
    let today = now.date.weekday();
    proof {
        lemma_at_index(today);
    }
    assert(today == today_of(now));
    if let Some(h) = find_day(hours, today) {
        if h.contains(now.time) {
            return !(!h.open_time.is_before(&h.close_time) && !now.time.is_before(&h.open_time))
                || now.date.days < MAX_DAYS;
        }
    }
    next_open_fits_calendar(hours, today, now.time, now.date)
}

proof fn lemma_at_index(w: Weekday)
    ensures
        Weekday::at(w.index()) == w,
{
}

/// Whether the search for the next opening (see `find_next_open_time`) stays
/// within the calendar's range.
pub fn next_open_fits_calendar(
    hours: &[BusinessHours],
    today: Weekday,
    now: TimeOfDay,
    date: Date,
) -> (r: bool)
    requires
        date.wf(),
    ensures
        r == next_open_fits(hours@, today, now, date),
{
    if let Some(h) = find_day(hours, today) {
        if !h.is_closed && now.is_before(&h.open_time) && h.open_time.is_before(&h.close_time) {
            return true;
        }
    }
    let today_idx = today.num_days_from_monday();
    let mut i: u32 = 1;
    while i <= 7
        invariant
            1 <= i <= 8,
            date.wf(),
            today_idx == today.index(),
            !opens_later_today(hours@, today, now),
            forall|j: int| 1 <= j < i ==> #[trigger] step_day(date, today, j) <= MAX_DAYS,
            next_open_step(hours@, today, 1) == next_open_step(hours@, today, i as int),
        decreases 8 - i,
    {
        let idx = (today_idx + i) % 7;
        let weekday = Weekday::from_days_from_monday(idx);
        proof {
            lemma_at_mod(today_idx + i);
            lemma_at_mod(idx as int);
            lemma_step_at_least(hours@, today, i as int);
        }
        assert(weekday == Weekday::at(today.index() + i));
        let days_offset = days_until_weekday(date, weekday);
        if date.days as i64 + days_offset > MAX_DAYS as i64 {
            assert(step_day(date, today, i as int) > MAX_DAYS);
            return false;
        }
        if let Some(h) = find_day(hours, weekday) {
            if !h.is_closed {
                return true;
            }
        }
        i += 1;
    }
    true
}

/// Whether the store is open at `now` and when it next opens or closes, for
/// a store with these hours; its weekday is that of `now`'s date.
pub fn status_at(store: &Store, hours: &[BusinessHours], now: DateTime) -> (r: BusinessStatusResponse)
    requires
        now.wf(),
        status_fits(hours@, now),
    ensures
        r.reports(store@, hours@, now),
{
    let current_weekday = now.date.weekday();
    proof {
        lemma_at_index(current_weekday);
    }
    assert(current_weekday == today_of(now));
    let current_time = now.time;
    let current_date = now.date;
    let today = find_day(hours, current_weekday);
    let today_hours = match today {
        Some(h) => Some(
            TodayHours { open_time: h.open_time, close_time: h.close_time, is_closed: h.is_closed },
        ),
        None => None,
    };
    let (is_open, current_status, next_close_time) = match today {
        Some(h) => {
            if !h.is_closed {
                if h.contains(current_time) {
                    let close_dt = if h.open_time.is_before(&h.close_time) {
                        DateTime { date: current_date, time: h.close_time }
                    } else if !current_time.is_before(&h.open_time) {
                        DateTime { date: chrono_add_days(current_date, 1).unwrap(), time: h.close_time }
                    } else {
                        DateTime { date: current_date, time: h.close_time }
                    };
                    (true, "营业中".to_string(), Some(close_dt))
                } else {
                    (false, "休息中".to_string(), None)
                }
            } else {
                (false, "今日休息".to_string(), None)
            }
        },
        None => (false, "未设置营业时间".to_string(), None),
    };
    let next_open_time = if is_open {
        None
    } else {
        find_next_open_time(hours, current_weekday, current_time, current_date)
    };
    BusinessStatusResponse {
        store_id: store.id,
        store_name: store.name.clone(),
        is_open,
        current_status,
        weekday: current_weekday,
        current_time,
        today_hours,
        next_open_time,
        next_close_time,
    }
}

proof fn lemma_step_bounds(hours: Seq<BusinessHours>, today: Weekday, i: int)
    requires
        1 <= i <= 8,
    ensures
        i <= next_open_step(hours, today, i) <= 8,
        forall|j: int|
            i <= j < next_open_step(hours, today, i) ==> !#[trigger] day_is_open(
                hours,
                Weekday::at(today.index() + j),
            ),
        next_open_step(hours, today, i) <= 7 ==> day_is_open(
            hours,
            Weekday::at(today.index() + next_open_step(hours, today, i)),
        ),
    decreases 8 - i,
{
    if i < 8 && !day_is_open(hours, Weekday::at(today.index() + i)) {
        lemma_step_bounds(hours, today, i + 1);
    }
}

/// Where `today` is the weekday of `date`, the date `i` weekdays on is `i`
/// days on, and falls on that weekday.
proof fn lemma_step_day_in_step(date: Date, today: Weekday, i: int)
    requires
        today.index() == weekday_index_of_day(date.days as int),
        1 <= i <= 7,
    ensures
        step_day(date, today, i) == date.days + i,
        Weekday::at(weekday_index_of_day(date.days + i)) == Weekday::at(today.index() + i),
{
    let f = today.index();
    lemma_at_mod(f + i);
    assert(0 <= f < 7);
    assert(((f + i) % 7 - f + 7) % 7 == (if i == 7 { 0 } else { i })) by (nonlinear_arith)
        requires
            0 <= f < 7,
            1 <= i <= 7,
    ;
    assert((date.days + i + 6) % 7 == (f + i) % 7) by (nonlinear_arith)
        requires
            f == (date.days + 6) % 7,
    ;
    lemma_at_mod(weekday_index_of_day(date.days + i));
}

/// Every weekday is reached within the seven weekdays after `today`.
proof fn lemma_week_covered(today: Weekday, w: Weekday)
    ensures
        1 <= days_forward(today.index(), w.index()) <= 7,
        Weekday::at(today.index() + days_forward(today.index(), w.index())) == w,
{
    let f = today.index();
    let d = days_forward(f, w.index());
    assert((f + d) % 7 == w.index()) by (nonlinear_arith)
        requires
            0 <= f < 7,
            0 <= w.index() < 7,
            d == (if (w.index() - f + 7) % 7 == 0 { 7 } else { (w.index() - f + 7) % 7 }),
    ;
    lemma_at_mod(f + d);
    lemma_at_index(w);
    lemma_at_mod(w.index());
}

/// Seen from a moment of a date that falls on `today`, the next opening
/// (see `next_open`) is the first one after that moment: it is later, at
/// most a week on, on a day whose hours begin then, and the store opens on
/// none of the days in between. There is none exactly where the store opens
/// on no day of the week.
pub proof fn lemma_next_open_is_first_opening(
    hours: Seq<BusinessHours>,
    today: Weekday,
    now: TimeOfDay,
    date: Date,
)
    requires
        date.wf(),
        today.index() == weekday_index_of_day(date.days as int),
        next_open_fits(hours, today, now, date),
    ensures
        next_open(hours, today, now, date) matches Some(t) ==> {
            &&& (DateTime { date, time: now }).precedes(t)
            &&& date.days <= t.date.days <= date.days + 7
            &&& day_is_open(hours, Weekday::at(weekday_index_of_day(t.date.days as int)))
            &&& first_for_day(hours, Weekday::at(weekday_index_of_day(t.date.days as int)))->0.open_time
                == t.time
            &&& forall|d: int|
                date.days < d < t.date.days ==> !day_is_open(
                    hours,
                    #[trigger] Weekday::at(weekday_index_of_day(d)),
                )
        },
        next_open(hours, today, now, date) is None <==> forall|w: Weekday|
            !#[trigger] day_is_open(hours, w),
{
    lemma_step_bounds(hours, today, 1);
    lemma_at_index(today);
    let k = next_open_step(hours, today, 1);
    if opens_later_today(hours, today, now) {
        assert(weekday_index_of_day(date.days as int) == today.index());
        assert(day_is_open(hours, today));
    } else if k <= 7 {
        lemma_step_day_in_step(date, today, k);
        assert(step_day(date, today, k) <= MAX_DAYS);
        let t = next_open(hours, today, now, date)->0;
        assert(t.date.days == date.days + k);
        assert forall|d: int| date.days < d < t.date.days implies !day_is_open(
            hours,
            #[trigger] Weekday::at(weekday_index_of_day(d)),
        ) by {
            lemma_step_day_in_step(date, today, d - date.days);
        }
    } else {
        assert forall|w: Weekday| !#[trigger] day_is_open(hours, w) by {
            lemma_week_covered(today, w);
        }
    }
}

/// The store is open at a moment exactly when it has hours for that
/// moment's weekday (the first entry for it), the day is not closed, and the
/// time lies from the opening time on and before the closing time, where
/// the closing time comes later in the day; from the opening time on or
/// before the closing time, where the hours run past midnight.
pub proof fn lemma_open_exactly_within_todays_hours(hours: Seq<BusinessHours>, now: DateTime)
    ensures
        (availability(hours, now) == Availability::Open) <==> (match first_for_day(
            hours,
            today_of(now),
        ) {
            Some(h) => !h.is_closed && (if h.open_time.precedes(h.close_time) {
                !now.time.precedes(h.open_time) && now.time.precedes(h.close_time)
            } else {
                !now.time.precedes(h.open_time) || now.time.precedes(h.close_time)
            }),
            None => false,
        }),
        (availability(hours, now) == Availability::Open) <==> (match first_for_day(
            hours,
            today_of(now),
        ) {
            Some(h) => h.covers(now.time),
            None => false,
        }),
{
}

/// While the store is open, it next closes after the current moment, at
/// most a day later, at the day's closing time, and at the first such
/// moment: the closing time one day earlier is not after the current
/// moment.
pub proof fn lemma_closing_time_is_later(hours: Seq<BusinessHours>, now: DateTime)
    requires
        now.wf(),
        availability(hours, now) == Availability::Open,
        status_fits(hours, now),
    ensures
        now.precedes(closing_time(first_for_day(hours, today_of(now))->0, now)),
        now.date.days <= closing_time(first_for_day(hours, today_of(now))->0, now).date.days
            <= now.date.days + 1,
        closing_time(first_for_day(hours, today_of(now))->0, now).time == first_for_day(
            hours,
            today_of(now),
        )->0.close_time,
        ({
            let c = closing_time(first_for_day(hours, today_of(now))->0, now);
            !(now.date.days < c.date.days - 1 || (now.date.days == c.date.days - 1
                && now.time.precedes(c.time)))
        }),
{
}

/// The status can be worked out at every moment at least a week before the
/// end of the calendar.
pub proof fn lemma_status_fits_away_from_calendar_end(hours: Seq<BusinessHours>, now: DateTime)
    requires
        now.wf(),
        now.date.days + 7 <= MAX_DAYS,
    ensures
        status_fits(hours, now),
{
    let today = today_of(now);
    let f = weekday_index_of_day(now.date.days as int);
    assert(0 <= f < 7);
    assert(Weekday::at(f).index() == f) by {
        lemma_at_mod(f);
        assert(f % 7 == f);
    }
    assert forall|i: int|
        1 <= i <= next_open_step(hours, today, 1) && i <= 7 implies #[trigger] step_day(
        now.date,
        today,
        i,
    ) <= MAX_DAYS by {
        lemma_step_day_in_step(now.date, today, i);
    }
}

} // verus!
