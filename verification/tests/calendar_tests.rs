use chrono::Datelike;
use store_hours::calendar::{Date, DateTime, TimeOfDay, Weekday, MAX_DAYS, MIN_DAYS};
use store_hours::models::{days_until_weekday, weekday_name, BusinessHours};

fn date(y: i32, m: u32, d: u32) -> Date {
    Date { days: chrono::NaiveDate::from_ymd_opt(y, m, d).unwrap().num_days_from_ce() }
}

fn hm(h: u32, m: u32) -> TimeOfDay {
    TimeOfDay::from_hms(h, m, 0).unwrap()
}

#[test]
fn calendar_range_matches_chrono() {
    assert_eq!(chrono::NaiveDate::MIN.num_days_from_ce(), MIN_DAYS);
    assert_eq!(chrono::NaiveDate::MAX.num_days_from_ce(), MAX_DAYS);
}

#[test]
fn weekday_of_known_dates() {
    assert_eq!(date(2000, 1, 1).weekday(), Weekday::Sat);
    assert_eq!(date(2015, 9, 8).weekday(), Weekday::Tue);
    assert_eq!(date(1970, 1, 1).weekday(), Weekday::Thu);
    assert_eq!(Date { days: 1 }.weekday(), Weekday::Mon);
    assert_eq!(Date { days: 730120 }.weekday(), Weekday::Sat);
    assert_eq!(Date { days: 0 }.weekday(), Weekday::Sun);
    assert_eq!(Date { days: -1 }.weekday(), Weekday::Sat);
    assert_eq!(Date { days: MIN_DAYS }.weekday().num_days_from_monday() as i64, ((MIN_DAYS as i64 + 6) % 7 + 7) % 7);
    assert_eq!(Date { days: MAX_DAYS }.weekday().num_days_from_monday() as i64, (MAX_DAYS as i64 + 6) % 7);
}

#[test]
fn weekday_numbers() {
    assert_eq!(Weekday::Mon.num_days_from_monday(), 0);
    assert_eq!(Weekday::Sun.num_days_from_monday(), 6);
    assert_eq!(Weekday::from_days_from_monday(3), Weekday::Thu);
    assert_eq!(Weekday::from_days_from_monday(9), Weekday::Wed);
}

#[test]
fn time_from_hms() {
    let t = TimeOfDay::from_hms(9, 30, 15).unwrap();
    assert_eq!(t.secs, 9 * 3600 + 30 * 60 + 15);
    assert_eq!(t.frac, 0);
    assert!(TimeOfDay::from_hms(24, 0, 0).is_none());
    assert!(TimeOfDay::from_hms(23, 60, 0).is_none());
    assert!(TimeOfDay::from_hms(23, 59, 60).is_none());
    assert!(TimeOfDay::from_hms(23, 59, 59).is_some());
}

#[test]
fn time_order() {
    assert!(hm(9, 0).is_before(&hm(9, 1)));
    assert!(!hm(9, 1).is_before(&hm(9, 0)));
    assert!(!hm(9, 0).is_before(&hm(9, 0)));
    let leap = TimeOfDay { secs: 59, frac: 1_500_000_000 };
    assert!(TimeOfDay { secs: 59, frac: 0 }.is_before(&leap));
    assert!(leap.is_before(&TimeOfDay { secs: 60, frac: 0 }));
}

#[test]
fn weekday_names() {
    assert_eq!(weekday_name(Weekday::Mon), "星期一");
    assert_eq!(weekday_name(Weekday::Tue), "星期二");
    assert_eq!(weekday_name(Weekday::Wed), "星期三");
    assert_eq!(weekday_name(Weekday::Thu), "星期四");
    assert_eq!(weekday_name(Weekday::Fri), "星期五");
    assert_eq!(weekday_name(Weekday::Sat), "星期六");
    assert_eq!(weekday_name(Weekday::Sun), "星期日");
}

#[test]
fn days_until_weekday_counts_forward() {
    // 2000-01-01 was a Saturday.
    let sat = date(2000, 1, 1);
    assert_eq!(days_until_weekday(sat, Weekday::Sat), 7);
    assert_eq!(days_until_weekday(sat, Weekday::Sun), 1);
    assert_eq!(days_until_weekday(sat, Weekday::Mon), 2);
    assert_eq!(days_until_weekday(sat, Weekday::Fri), 6);
    let mon = date(2024, 5, 20);
    assert_eq!(days_until_weekday(mon, Weekday::Mon), 7);
    assert_eq!(days_until_weekday(mon, Weekday::Wed), 2);
}

#[test]
fn days_until_weekday_lands_on_target() {
    let from = date(2023, 12, 28);
    for n in 0..7u32 {
        let target = Weekday::from_days_from_monday(n);
        let k = days_until_weekday(from, target);
        assert!((1..=7).contains(&k));
        assert_eq!(Date { days: from.days + k as i32 }.weekday(), target);
    }
}

fn hours(weekday: Weekday, open: TimeOfDay, close: TimeOfDay, is_closed: bool) -> BusinessHours {
    BusinessHours { id: 1, store_id: 2, weekday, open_time: open, close_time: close, is_closed }
}

#[test]
fn contains_within_a_day() {
    let h = hours(Weekday::Mon, hm(9, 0), hm(21, 0), false);
    assert!(!h.contains(hm(8, 59)));
    assert!(h.contains(hm(9, 0)));
    assert!(h.contains(hm(20, 59)));
    assert!(!h.contains(hm(21, 0)));
}

#[test]
fn contains_past_midnight() {
    let h = hours(Weekday::Fri, hm(22, 0), hm(2, 0), false);
    assert!(h.contains(hm(23, 0)));
    assert!(h.contains(hm(22, 0)));
    assert!(h.contains(hm(1, 59)));
    assert!(!h.contains(hm(2, 0)));
    assert!(!h.contains(hm(12, 0)));
}

#[test]
fn contains_closed_and_round_the_clock() {
    let closed = hours(Weekday::Sun, hm(9, 0), hm(21, 0), true);
    assert!(!closed.contains(hm(12, 0)));
    let all_day = hours(Weekday::Sun, hm(9, 0), hm(9, 0), false);
    assert!(all_day.contains(hm(0, 0)));
    assert!(all_day.contains(hm(8, 59)));
    assert!(all_day.contains(hm(23, 59)));
}

#[test]
fn date_time_fields() {
    let dt = DateTime { date: date(2024, 1, 1), time: hm(8, 0) };
    assert_eq!(dt.date.weekday(), Weekday::Mon);
}
