use chrono::Datelike;
use store_hours::calendar::{Date, DateTime, TimeOfDay, Weekday};
use store_hours::models::{BusinessHours, Store, TodayHours};
use store_hours::schedule::{find_day, find_next_open_time, status_at, status_fits_calendar};
use store_hours::weekly::{set_day, weekly_order};

fn date(y: i32, m: u32, d: u32) -> Date {
    Date { days: chrono::NaiveDate::from_ymd_opt(y, m, d).unwrap().num_days_from_ce() }
}

fn hm(h: u32, m: u32) -> TimeOfDay {
    TimeOfDay::from_hms(h, m, 0).unwrap()
}

fn day(id: u128, weekday: Weekday, open: TimeOfDay, close: TimeOfDay, is_closed: bool) -> BusinessHours {
    BusinessHours { id, store_id: 7, weekday, open_time: open, close_time: close, is_closed }
}

fn store() -> Store {
    Store {
        id: 7,
        name: "测试门店".to_string(),
        address: "地址".to_string(),
        created_at: DateTime { date: date(2024, 1, 1), time: hm(0, 0) },
    }
}

// 2024-05-20 was a Monday.
fn monday() -> Date {
    date(2024, 5, 20)
}

#[test]
fn find_day_takes_first_match() {
    let hs = vec![
        day(1, Weekday::Tue, hm(9, 0), hm(17, 0), false),
        day(2, Weekday::Mon, hm(9, 0), hm(17, 0), false),
        day(3, Weekday::Mon, hm(10, 0), hm(18, 0), false),
    ];
    assert_eq!(find_day(&hs, Weekday::Mon).unwrap().id, 2);
    assert!(find_day(&hs, Weekday::Sun).is_none());
}

#[test]
fn next_open_later_today() {
    let hs = vec![day(1, Weekday::Mon, hm(9, 0), hm(21, 0), false)];
    let r = find_next_open_time(&hs, Weekday::Mon, hm(8, 0), monday()).unwrap();
    assert_eq!(r, DateTime { date: monday(), time: hm(9, 0) });
}

#[test]
fn next_open_skips_today_after_closing() {
    let hs = vec![
        day(1, Weekday::Mon, hm(9, 0), hm(21, 0), false),
        day(2, Weekday::Wed, hm(10, 0), hm(20, 0), false),
    ];
    let r = find_next_open_time(&hs, Weekday::Mon, hm(22, 0), monday()).unwrap();
    assert_eq!(r, DateTime { date: Date { days: monday().days + 2 }, time: hm(10, 0) });
}

#[test]
fn next_open_skips_closed_days() {
    let hs = vec![
        day(1, Weekday::Tue, hm(9, 0), hm(21, 0), true),
        day(2, Weekday::Thu, hm(11, 0), hm(20, 0), false),
    ];
    let r = find_next_open_time(&hs, Weekday::Mon, hm(12, 0), monday()).unwrap();
    assert_eq!(r, DateTime { date: Date { days: monday().days + 3 }, time: hm(11, 0) });
}

#[test]
fn next_open_same_weekday_next_week() {
    let hs = vec![day(1, Weekday::Mon, hm(9, 0), hm(21, 0), false)];
    let r = find_next_open_time(&hs, Weekday::Mon, hm(21, 30), monday()).unwrap();
    assert_eq!(r, DateTime { date: Date { days: monday().days + 7 }, time: hm(9, 0) });
}

#[test]
fn next_open_overnight_today_is_not_later_today() {
    // Hours past midnight do not count as opening later today.
    let hs = vec![day(1, Weekday::Mon, hm(22, 0), hm(2, 0), false)];
    let r = find_next_open_time(&hs, Weekday::Mon, hm(12, 0), monday()).unwrap();
    assert_eq!(r, DateTime { date: Date { days: monday().days + 7 }, time: hm(22, 0) });
}

#[test]
fn next_open_none_when_never_open() {
    let hs = vec![day(1, Weekday::Mon, hm(9, 0), hm(21, 0), true)];
    assert!(find_next_open_time(&hs, Weekday::Mon, hm(8, 0), monday()).is_none());
    let empty: Vec<BusinessHours> = Vec::new();
    assert!(find_next_open_time(&empty, Weekday::Mon, hm(8, 0), monday()).is_none());
}

#[test]
fn status_open_now() {
    let hs = vec![day(1, Weekday::Mon, hm(9, 0), hm(21, 0), false)];
    let now = DateTime { date: monday(), time: hm(12, 0) };
    let s = status_at(&store(), &hs, now);
    assert!(s.is_open);
    assert_eq!(s.current_status, "营业中");
    assert_eq!(s.store_id, 7);
    assert_eq!(s.store_name, "测试门店");
    assert_eq!(s.weekday, Weekday::Mon);
    assert_eq!(s.current_time, hm(12, 0));
    assert_eq!(s.today_hours, Some(TodayHours { open_time: hm(9, 0), close_time: hm(21, 0), is_closed: false }));
    assert_eq!(s.next_close_time, Some(DateTime { date: monday(), time: hm(21, 0) }));
    assert!(s.next_open_time.is_none());
}

#[test]
fn status_open_overnight_closes_tomorrow() {
    let hs = vec![day(1, Weekday::Mon, hm(22, 0), hm(2, 0), false)];
    let now = DateTime { date: monday(), time: hm(23, 0) };
    let s = status_at(&store(), &hs, now);
    assert!(s.is_open);
    assert_eq!(s.next_close_time, Some(DateTime { date: Date { days: monday().days + 1 }, time: hm(2, 0) }));
    // Early in the morning, the same hours close today.
    let early = DateTime { date: monday(), time: hm(1, 0) };
    let s = status_at(&store(), &hs, early);
    assert!(s.is_open);
    assert_eq!(s.next_close_time, Some(DateTime { date: monday(), time: hm(2, 0) }));
}

#[test]
fn status_resting_closed_and_unset() {
    let hs = vec![
        day(1, Weekday::Mon, hm(9, 0), hm(21, 0), false),
        day(2, Weekday::Tue, hm(9, 0), hm(21, 0), true),
    ];
    let s = status_at(&store(), &hs, DateTime { date: monday(), time: hm(8, 0) });
    assert!(!s.is_open);
    assert_eq!(s.current_status, "休息中");
    assert!(s.next_close_time.is_none());
    assert_eq!(s.next_open_time, Some(DateTime { date: monday(), time: hm(9, 0) }));

    let tuesday = Date { days: monday().days + 1 };
    let s = status_at(&store(), &hs, DateTime { date: tuesday, time: hm(12, 0) });
    assert_eq!(s.current_status, "今日休息");
    assert_eq!(s.today_hours, Some(TodayHours { open_time: hm(9, 0), close_time: hm(21, 0), is_closed: true }));
    assert_eq!(s.next_open_time, Some(DateTime { date: Date { days: monday().days + 7 }, time: hm(9, 0) }));

    let wednesday = Date { days: monday().days + 2 };
    let s = status_at(&store(), &hs, DateTime { date: wednesday, time: hm(12, 0) });
    assert_eq!(s.current_status, "未设置营业时间");
    assert!(s.today_hours.is_none());
    assert_eq!(s.next_open_time, Some(DateTime { date: Date { days: monday().days + 7 }, time: hm(9, 0) }));
}

#[test]
fn status_fits_only_near_the_end_of_the_calendar() {
    let hs = vec![day(1, Weekday::Mon, hm(9, 0), hm(21, 0), false)];
    let now = DateTime { date: monday(), time: hm(22, 0) };
    assert!(status_fits_calendar(&hs, now));
    let last = Date { days: store_hours::calendar::MAX_DAYS };
    let last_weekday = last.weekday();
    let hs_last = vec![day(1, last_weekday, hm(9, 0), hm(21, 0), false)];
    // Open on the last day: nothing needs a later date.
    assert!(status_fits_calendar(&hs_last, DateTime { date: last, time: hm(12, 0) }));
    // Closed for the day: the next opening would be a week past the end.
    assert!(!status_fits_calendar(&hs_last, DateTime { date: last, time: hm(22, 0) }));
}

#[test]
fn set_day_replaces_the_weekday() {
    let mut hs = vec![
        day(1, Weekday::Mon, hm(9, 0), hm(21, 0), false),
        day(2, Weekday::Tue, hm(9, 0), hm(21, 0), false),
    ];
    set_day(&mut hs, day(3, Weekday::Mon, hm(10, 0), hm(18, 0), false));
    assert_eq!(hs.len(), 2);
    assert_eq!(hs[0].id, 2);
    assert_eq!(hs[1].id, 3);
}

#[test]
fn weekly_order_is_monday_to_sunday() {
    let hs = vec![
        day(1, Weekday::Sun, hm(9, 0), hm(21, 0), false),
        day(2, Weekday::Wed, hm(9, 0), hm(21, 0), false),
        day(3, Weekday::Mon, hm(9, 0), hm(21, 0), false),
        day(4, Weekday::Wed, hm(10, 0), hm(21, 0), false),
    ];
    let ids: Vec<u128> = weekly_order(&hs).iter().map(|h| h.id).collect();
    assert_eq!(ids, vec![3, 2, 4, 1]);
}
