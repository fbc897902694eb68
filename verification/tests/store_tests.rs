use chrono::Datelike;
use store_hours::calendar::{Date, DateTime, TimeOfDay, Weekday};
use store_hours::models::{
    default_seven_days, BatchCreateBusinessHoursRequest, BusinessHoursItem, CreateBusinessHoursRequest,
};
use store_hours::store::{
    add_business_hours, add_business_hours_with_id, batch_add_business_hours,
    batch_add_business_hours_with_ids, create_store, get_business_hours, get_business_status,
    get_store, insert_store, AppState, business_status_at,
};

fn hm(h: u32, m: u32) -> TimeOfDay {
    TimeOfDay::from_hms(h, m, 0).unwrap()
}

fn monday() -> Date {
    Date { days: chrono::NaiveDate::from_ymd_opt(2024, 5, 20).unwrap().num_days_from_ce() }
}

fn item(weekday: Weekday, open: TimeOfDay, close: TimeOfDay) -> BusinessHoursItem {
    BusinessHoursItem { weekday, open_time: open, close_time: close, is_closed: false }
}

fn is_v4(id: u128) -> bool {
    uuid::Uuid::from_u128(id).get_version_num() == 4
}

#[test]
fn create_then_get_store() {
    let mut state = AppState::new();
    let s = create_store(&mut state, "一号店".to_string(), "北京路 1 号".to_string());
    assert!(is_v4(s.id));
    let got = get_store(&state, s.id).unwrap();
    assert_eq!(got.id, s.id);
    assert_eq!(got.name, "一号店");
    assert_eq!(got.address, "北京路 1 号");
    assert_eq!(got.created_at, s.created_at);
    assert!(get_store(&state, s.id ^ 1).is_none());
    assert_eq!(get_business_hours(&state, s.id).unwrap().len(), 0);
}

#[test]
fn insert_store_replaces_same_id() {
    let mut state = AppState::new();
    let at = DateTime { date: monday(), time: hm(8, 0) };
    insert_store(&mut state, 5, "a".to_string(), "x".to_string(), at);
    insert_store(&mut state, 5, "b".to_string(), "y".to_string(), at);
    assert_eq!(get_store(&state, 5).unwrap().name, "b");
}

#[test]
fn add_hours_to_missing_store() {
    let mut state = AppState::new();
    let req = CreateBusinessHoursRequest {
        store_id: 42,
        weekday: Weekday::Mon,
        open_time: hm(9, 0),
        close_time: hm(21, 0),
        is_closed: false,
    };
    assert_eq!(add_business_hours(&mut state, req).err().unwrap(), "门店不存在");
    assert_eq!(get_business_hours(&state, 42).err().unwrap(), "门店不存在");
    assert_eq!(get_business_status(&state, 42).err().unwrap(), "门店不存在");
}

#[test]
fn add_hours_replaces_weekday() {
    let mut state = AppState::new();
    let at = DateTime { date: monday(), time: hm(8, 0) };
    insert_store(&mut state, 9, "店".to_string(), "址".to_string(), at);
    let req = CreateBusinessHoursRequest {
        store_id: 9,
        weekday: Weekday::Tue,
        open_time: hm(9, 0),
        close_time: hm(21, 0),
        is_closed: false,
    };
    let r = add_business_hours_with_id(&mut state, req, 100).unwrap();
    assert_eq!(r.id, 100);
    assert_eq!(r.weekday_name, "星期二");
    let req2 = CreateBusinessHoursRequest { open_time: hm(10, 0), ..req };
    let r2 = add_business_hours(&mut state, req2).unwrap();
    assert!(is_v4(r2.id));
    let listed = get_business_hours(&state, 9).unwrap();
    assert_eq!(listed.len(), 1);
    assert_eq!(listed[0].id, r2.id);
    assert_eq!(listed[0].open_time, hm(10, 0));
    assert_eq!(listed[0].store_id, 9);
}

#[test]
fn listed_hours_are_monday_to_sunday() {
    let mut state = AppState::new();
    let at = DateTime { date: monday(), time: hm(8, 0) };
    insert_store(&mut state, 3, "店".to_string(), "址".to_string(), at);
    let req = BatchCreateBusinessHoursRequest {
        store_id: 3,
        hours: vec![
            item(Weekday::Sun, hm(10, 0), hm(20, 0)),
            item(Weekday::Wed, hm(9, 0), hm(21, 0)),
            item(Weekday::Mon, hm(9, 0), hm(21, 0)),
        ],
    };
    let rs = batch_add_business_hours_with_ids(&mut state, req, &vec![1, 2, 3]).unwrap();
    assert_eq!(rs.iter().map(|r| r.id).collect::<Vec<_>>(), vec![1, 2, 3]);
    let listed = get_business_hours(&state, 3).unwrap();
    let names: Vec<&str> = listed.iter().map(|r| r.weekday_name.as_str()).collect();
    assert_eq!(names, vec!["星期一", "星期三", "星期日"]);
    assert_eq!(listed.iter().map(|r| r.id).collect::<Vec<_>>(), vec![3, 2, 1]);
}

#[test]
fn batch_last_item_for_a_weekday_wins() {
    let mut state = AppState::new();
    let at = DateTime { date: monday(), time: hm(8, 0) };
    insert_store(&mut state, 4, "店".to_string(), "址".to_string(), at);
    let req = BatchCreateBusinessHoursRequest {
        store_id: 4,
        hours: vec![item(Weekday::Fri, hm(9, 0), hm(21, 0)), item(Weekday::Fri, hm(11, 0), hm(23, 0))],
    };
    let rs = batch_add_business_hours(&mut state, req).unwrap();
    assert_eq!(rs.len(), 2);
    assert!(rs.iter().all(|r| is_v4(r.id)));
    let listed = get_business_hours(&state, 4).unwrap();
    assert_eq!(listed.len(), 1);
    assert_eq!(listed[0].open_time, hm(11, 0));
    assert_eq!(listed[0].id, rs[1].id);
}

#[test]
fn batch_to_missing_store() {
    let mut state = AppState::new();
    let req = BatchCreateBusinessHoursRequest { store_id: 1, hours: vec![item(Weekday::Fri, hm(9, 0), hm(21, 0))] };
    assert_eq!(batch_add_business_hours(&mut state, req).err().unwrap(), "门店不存在");
}

#[test]
fn seeded_demo_store() {
    let mut state = AppState::new();
    let id = state.seed_demo_data();
    assert!(is_v4(id));
    let s = get_store(&state, id).unwrap();
    assert_eq!(s.name, "示例门店");
    assert_eq!(s.address, "示例地址 123 号");
    let listed = get_business_hours(&state, id).unwrap();
    assert_eq!(listed.len(), 7);
    let expect = [
        (Weekday::Mon, 9, 21),
        (Weekday::Tue, 9, 21),
        (Weekday::Wed, 9, 21),
        (Weekday::Thu, 9, 21),
        (Weekday::Fri, 9, 22),
        (Weekday::Sat, 10, 22),
        (Weekday::Sun, 10, 20),
    ];
    for (r, (w, o, c)) in listed.iter().zip(expect.iter()) {
        assert_eq!(r.weekday, *w);
        assert_eq!(r.open_time, hm(*o, 0));
        assert_eq!(r.close_time, hm(*c, 0));
        assert!(!r.is_closed);
        assert_eq!(r.store_id, id);
    }
}

#[test]
fn status_of_demo_store_at_fixed_times() {
    let mut state = AppState::new();
    let id = state.seed_demo_data();
    let fri_noon = DateTime { date: Date { days: monday().days + 4 }, time: hm(12, 0) };
    let s = business_status_at(&state, id, fri_noon).unwrap();
    assert!(s.is_open);
    assert_eq!(s.weekday, Weekday::Fri);
    assert_eq!(s.next_close_time, Some(DateTime { date: fri_noon.date, time: hm(22, 0) }));
    let sat_early = DateTime { date: Date { days: monday().days + 5 }, time: hm(7, 0) };
    let s = business_status_at(&state, id, sat_early).unwrap();
    assert!(!s.is_open);
    assert_eq!(s.current_status, "休息中");
    assert_eq!(s.next_open_time, Some(DateTime { date: sat_early.date, time: hm(10, 0) }));
    let sun_late = DateTime { date: Date { days: monday().days + 6 }, time: hm(21, 0) };
    let s = business_status_at(&state, id, sun_late).unwrap();
    assert_eq!(s.next_open_time, Some(DateTime { date: Date { days: monday().days + 7 }, time: hm(9, 0) }));
}

#[test]
fn status_by_the_clock() {
    let mut state = AppState::new();
    let id = state.seed_demo_data();
    let s = get_business_status(&state, id).unwrap();
    assert_eq!(s.store_id, id);
    assert_eq!(s.is_open, s.next_close_time.is_some());
    assert_eq!(s.is_open, s.next_open_time.is_none());
    let today = chrono::Local::now().naive_local().date().weekday().num_days_from_monday();
    assert_eq!(s.weekday.num_days_from_monday(), today);
}

#[test]
fn seven_days_by_default() {
    let d = default_seven_days();
    assert_eq!(d, vec![Weekday::Mon, Weekday::Tue, Weekday::Wed, Weekday::Thu, Weekday::Fri, Weekday::Sat, Weekday::Sun]);
}

#[test]
fn status_at_end_of_calendar_is_out_of_range() {
    let mut state = AppState::new();
    let at = DateTime { date: monday(), time: hm(8, 0) };
    insert_store(&mut state, 11, "店".to_string(), "址".to_string(), at);
    let last = Date { days: store_hours::calendar::MAX_DAYS };
    let req = CreateBusinessHoursRequest {
        store_id: 11,
        weekday: last.weekday(),
        open_time: hm(9, 0),
        close_time: hm(21, 0),
        is_closed: false,
    };
    add_business_hours_with_id(&mut state, req, 1).unwrap();
    let open = business_status_at(&state, 11, DateTime { date: last, time: hm(12, 0) }).unwrap();
    assert!(open.is_open);
    assert_eq!(open.store_id, 11);
    let err = business_status_at(&state, 11, DateTime { date: last, time: hm(22, 0) }).err().unwrap();
    assert_eq!(err, "当前日期超出可计算范围");
    let err = business_status_at(&state, 12, DateTime { date: last, time: hm(22, 0) }).err().unwrap();
    assert_eq!(err, "门店不存在");
}

#[test]
fn repeated_request_changes_only_the_id() {
    let mut state = AppState::new();
    let at = DateTime { date: monday(), time: hm(8, 0) };
    insert_store(&mut state, 13, "店".to_string(), "址".to_string(), at);
    let other = CreateBusinessHoursRequest { store_id: 13, weekday: Weekday::Sun, open_time: hm(9, 0), close_time: hm(17, 0), is_closed: false };
    add_business_hours_with_id(&mut state, other, 1).unwrap();
    let req = CreateBusinessHoursRequest { store_id: 13, weekday: Weekday::Mon, open_time: hm(9, 0), close_time: hm(21, 0), is_closed: false };
    let a1 = add_business_hours_with_id(&mut state, req, 2).unwrap();
    let first = get_business_hours(&state, 13).unwrap();
    let a2 = add_business_hours_with_id(&mut state, req, 3).unwrap();
    let second = get_business_hours(&state, 13).unwrap();
    assert_eq!((a1.id, a2.id), (2, 3));
    assert_eq!((a1.weekday, a1.open_time, a1.close_time, a1.is_closed), (a2.weekday, a2.open_time, a2.close_time, a2.is_closed));
    assert_eq!(first.len(), second.len());
    assert_eq!(first.iter().map(|r| r.id).collect::<Vec<_>>(), vec![2, 1]);
    assert_eq!(second.iter().map(|r| r.id).collect::<Vec<_>>(), vec![3, 1]);
}

#[test]
fn batch_matches_single_adds() {
    let at = DateTime { date: monday(), time: hm(8, 0) };
    let items = vec![
        item(Weekday::Tue, hm(9, 0), hm(21, 0)),
        item(Weekday::Mon, hm(8, 0), hm(20, 0)),
        item(Weekday::Tue, hm(10, 0), hm(22, 0)),
    ];
    let mut batch = AppState::new();
    insert_store(&mut batch, 21, "店".to_string(), "址".to_string(), at);
    batch_add_business_hours_with_ids(&mut batch, BatchCreateBusinessHoursRequest { store_id: 21, hours: items.clone() }, &vec![5, 6, 7]).unwrap();
    let mut single = AppState::new();
    insert_store(&mut single, 21, "店".to_string(), "址".to_string(), at);
    for (it, id) in items.iter().zip([5u128, 6, 7]) {
        let req = CreateBusinessHoursRequest { store_id: 21, weekday: it.weekday, open_time: it.open_time, close_time: it.close_time, is_closed: it.is_closed };
        add_business_hours_with_id(&mut single, req, id).unwrap();
    }
    let a = get_business_hours(&batch, 21).unwrap();
    let b = get_business_hours(&single, 21).unwrap();
    assert_eq!(a.iter().map(|r| (r.id, r.weekday, r.open_time)).collect::<Vec<_>>(), b.iter().map(|r| (r.id, r.weekday, r.open_time)).collect::<Vec<_>>());
    assert_eq!(a.iter().map(|r| r.id).collect::<Vec<_>>(), vec![6, 7]);
}
