//! Stores, their weekly business hours, and the requests and answers of the
//! service.

use crate::calendar::{weekday_index_of_day, Date, DateTime, TimeOfDay, Weekday};
use vstd::prelude::*;

verus! {

broadcast use vstd::string::to_string_from_display_ensures_for_str;

/// A store.
pub struct Store {
    pub id: u128,
    pub name: String,
    pub address: String,
    pub created_at: DateTime,
}

/// What a store is, with its texts as sequences of characters.
pub struct StoreView {
    pub id: u128,
    pub name: Seq<char>,
    pub address: Seq<char>,
    pub created_at: DateTime,
}

impl View for Store {
    type V = StoreView;

    open spec fn view(&self) -> StoreView {
        StoreView {
            id: self.id,
            name: self.name@,
            address: self.address@,
            created_at: self.created_at,
        }
    }
}

impl Clone for Store {
    fn clone(&self) -> (r: Store)
        ensures
            r@ == self@,
    {
        Store {
            id: self.id,
            name: self.name.clone(),
            address: self.address.clone(),
            created_at: self.created_at,
        }
    }
}

/// The hours of one store on one day of the week. A day is closed when
/// `is_closed` is set; otherwise the store is open from `open_time` up to,
/// not including, `close_time`, past midnight where `close_time` is not
/// later than `open_time`.
#[derive(Clone, Copy, Debug, PartialEq, Eq, Structural)]
pub struct BusinessHours {
    pub id: u128,
    pub store_id: u128,
    pub weekday: Weekday,
    pub open_time: TimeOfDay,
    pub close_time: TimeOfDay,
    pub is_closed: bool,
}

impl BusinessHours {
    /// Whether the day's hours run past midnight (or round the clock, where
    /// the two times are equal).
    pub open spec fn spans_midnight(self) -> bool {
        !self.open_time.precedes(self.close_time)
    }

    /// Whether the store is open at time of day `t` under these hours.
    pub open spec fn covers(self, t: TimeOfDay) -> bool {
        &&& !self.is_closed
        &&& if self.spans_midnight() {
            !t.precedes(self.open_time) || t.precedes(self.close_time)
        } else {
            !t.precedes(self.open_time) && t.precedes(self.close_time)
        }
    }

    /// Whether the store is open at `time` under these hours.
    pub fn contains(&self, time: TimeOfDay) -> (r: bool)
        ensures
            r == self.covers(time),
    {
        if self.is_closed {
            return false;
        }
        if self.open_time.is_before(&self.close_time) {
            !time.is_before(&self.open_time) && time.is_before(&self.close_time)
        } else {
            !time.is_before(&self.open_time) || time.is_before(&self.close_time)
        }
    }
}

/// A request to set the hours of one weekday of a store.
#[derive(Clone, Copy, Debug, PartialEq, Eq, Structural)]
pub struct CreateBusinessHoursRequest {
    pub store_id: u128,
    pub weekday: Weekday,
    pub open_time: TimeOfDay,
    pub close_time: TimeOfDay,
    pub is_closed: bool,
}

/// The hours of one weekday, inside a request for several.
#[derive(Clone, Copy, Debug, PartialEq, Eq, Structural)]
pub struct BusinessHoursItem {
    pub weekday: Weekday,
    pub open_time: TimeOfDay,
    pub close_time: TimeOfDay,
    pub is_closed: bool,
}

/// A request to set the hours of several weekdays of a store at once.
pub struct BatchCreateBusinessHoursRequest {
    pub store_id: u128,
    pub hours: Vec<BusinessHoursItem>,
}

/// A request to give several weekdays of a store the same hours.
pub struct SetUniformHoursRequest {
    pub store_id: u128,
    pub open_time: TimeOfDay,
    pub close_time: TimeOfDay,
    pub is_closed: bool,
    pub apply_weekdays: Vec<Weekday>,
}

/// The seven weekdays, Monday first.
pub open spec fn whole_week() -> Seq<Weekday> {
    seq![
        Weekday::Mon,
        Weekday::Tue,
        Weekday::Wed,
        Weekday::Thu,
        Weekday::Fri,
        Weekday::Sat,
        Weekday::Sun,
    ]
}

/// The weekdays a uniform-hours request applies to when it names none:
/// all seven, Monday first.
pub fn default_seven_days() -> (r: Vec<Weekday>)
    ensures
        r@ == whole_week(),
{
    let r = vec![
        Weekday::Mon,
        Weekday::Tue,
        Weekday::Wed,
        Weekday::Thu,
        Weekday::Fri,
        Weekday::Sat,
        Weekday::Sun,
    ];
    assert(r@ =~= whole_week());
    r
}

/// A store's hours on today's weekday.
#[derive(Clone, Copy, Debug, PartialEq, Eq, Structural)]
pub struct TodayHours {
    pub open_time: TimeOfDay,
    pub close_time: TimeOfDay,
    pub is_closed: bool,
}

impl TodayHours {
    pub open spec fn of(h: BusinessHours) -> TodayHours {
        TodayHours { open_time: h.open_time, close_time: h.close_time, is_closed: h.is_closed }
    }
}

/// Whether a store is open now, and when it next opens or closes.
pub struct BusinessStatusResponse {
    pub store_id: u128,
    pub store_name: String,
    pub is_open: bool,
    pub current_status: String,
    pub weekday: Weekday,
    pub current_time: TimeOfDay,
    pub today_hours: Option<TodayHours>,
    pub next_open_time: Option<DateTime>,
    pub next_close_time: Option<DateTime>,
}

/// One day's hours as the service answers them, with the weekday's name.
pub struct BusinessHoursResponse {
    pub id: u128,
    pub store_id: u128,
    pub weekday: Weekday,
    pub weekday_name: String,
    pub open_time: TimeOfDay,
    pub close_time: TimeOfDay,
    pub is_closed: bool,
}

impl BusinessHoursResponse {
    /// Whether this answer reports the hours `h`.
    pub open spec fn describes(self, h: BusinessHours) -> bool {
        &&& self.id == h.id
        &&& self.store_id == h.store_id
        &&& self.weekday == h.weekday
        &&& self.weekday_name@ == weekday_label(h.weekday)
        &&& self.open_time == h.open_time
        &&& self.close_time == h.close_time
        &&& self.is_closed == h.is_closed
    }

    /// The answer that reports the hours `h`.
    pub fn of_hours(h: &BusinessHours) -> (r: BusinessHoursResponse)
        ensures
            r.describes(*h),
    {
        BusinessHoursResponse {
            id: h.id,
            store_id: h.store_id,
            weekday: h.weekday,
            weekday_name: weekday_name(h.weekday).to_string(),
            open_time: h.open_time,
            close_time: h.close_time,
            is_closed: h.is_closed,
        }
    }
}

/// The Chinese name of a weekday.
pub open spec fn weekday_label(w: Weekday) -> Seq<char> {
    match w {
        Weekday::Mon => "星期一"@,
        Weekday::Tue => "星期二"@,
        Weekday::Wed => "星期三"@,
        Weekday::Thu => "星期四"@,
        Weekday::Fri => "星期五"@,
        Weekday::Sat => "星期六"@,
        Weekday::Sun => "星期日"@,
    }
}

/// The Chinese name of a weekday.
pub fn weekday_name(weekday: Weekday) -> (r: &'static str)
    ensures
        r@ == weekday_label(weekday),
{
    match weekday {
        Weekday::Mon => "星期一",
        Weekday::Tue => "星期二",
        Weekday::Wed => "星期三",
        Weekday::Thu => "星期四",
        Weekday::Fri => "星期五",
        Weekday::Sat => "星期六",
        Weekday::Sun => "星期日",
    }
}

/// Days forward from weekday number `from` to the next weekday number `to`
/// (both counted from Monday): between 1 and 7, a whole week when they are
/// the same day.
pub open spec fn days_forward(from: int, to: int) -> int {
    let diff = (to - from + 7) % 7;
    if diff == 0 {
        7
    } else {
        diff
    }
}

/// How many days after `from` the next `target` weekday falls: 1 to 7, a
/// whole week when `from` is itself such a day.
pub fn days_until_weekday(from: Date, target: Weekday) -> (r: i64)
    requires
        from.wf(),
    ensures
        r == days_forward(weekday_index_of_day(from.days as int), target.index()),
        1 <= r <= 7,
{
    let from_weekday = from.weekday();
    let diff = (target.num_days_from_monday() as i64 - from_weekday.num_days_from_monday() as i64
        + 7) % 7;
    if diff == 0 {
        7
    } else {
        diff
    }
}

/// Counting forward from a date to the next date on a given weekday takes 1
/// to 7 days and lands on that weekday.
pub proof fn lemma_days_forward_lands_on_target(from_days: int, target: Weekday)
    ensures
        1 <= days_forward(weekday_index_of_day(from_days), target.index()) <= 7,
        weekday_index_of_day(from_days + days_forward(weekday_index_of_day(from_days), target.index()))
            == target.index(),
{
    let f = weekday_index_of_day(from_days);
    let t = target.index();
    let d = days_forward(f, t);
    assert(0 <= f < 7);
    assert((from_days + d + 6) % 7 == t) by (nonlinear_arith)
        requires
            f == (from_days + 6) % 7,
            0 <= t < 7,
            d == (if (t - f + 7) % 7 == 0 { 7 } else { (t - f + 7) % 7 }),
    ;
}

/// A closed day covers no time; a day that opens and closes at the same time
/// covers every time; otherwise a time is covered from the opening time on
/// and before the closing time, past midnight where the closing time comes
/// first.
pub proof fn lemma_covers_edge_cases(h: BusinessHours, t: TimeOfDay)
    ensures
        h.is_closed ==> !h.covers(t),
        !h.is_closed && h.open_time == h.close_time ==> h.covers(t),
        !h.is_closed && h.open_time.precedes(h.close_time) ==> (h.covers(t) <==> (!t.precedes(
            h.open_time,
        ) && t.precedes(h.close_time))),
        !h.is_closed && h.close_time.precedes(h.open_time) ==> (h.covers(t) <==> (!t.precedes(
            h.open_time,
        ) || t.precedes(h.close_time))),
{
}

} // verus!
