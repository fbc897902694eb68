use store_hours::calendar::{TimeOfDay, Weekday};
use store_hours::handlers::{
    add_business_hours_handler, batch_add_business_hours_handler, create_store_handler,
    get_business_hours_handler, get_business_status_handler, get_store_handler, health_check,
    not_found, ApiResponse, CreateStoreRequest,
};
use store_hours::models::{BatchCreateBusinessHoursRequest, BusinessHoursItem, CreateBusinessHoursRequest};
use store_hours::store::AppState;

fn hm(h: u32, m: u32) -> TimeOfDay {
    TimeOfDay::from_hms(h, m, 0).unwrap()
}

#[test]
fn api_response_constructors() {
    let ok = ApiResponse::success(5u32);
    assert_eq!((ok.code, ok.message.as_str(), ok.data), (0, "success", Some(5)));
    let ok: ApiResponse<u32> = ApiResponse::success_no_data();
    assert_eq!((ok.code, ok.message.as_str(), ok.data), (0, "success", None));
    let err: ApiResponse<u32> = ApiResponse::error("坏了");
    assert_eq!((err.code, err.message.as_str(), err.data), (1, "坏了", None));
}

#[test]
fn health_and_fallback() {
    let (status, body) = health_check();
    assert_eq!((status, body.code, body.message.as_str()), (200, 0, "Service is running"));
    assert!(body.data.is_none());
    let (status, body) = not_found();
    assert_eq!((status, body.code, body.message.as_str()), (404, 404, "Not Found"));
}

#[test]
fn create_store_rejects_blank_names() {
    let mut state = AppState::new();
    for name in ["", "   ", "\t\n", "\u{3000}"] {
        let (status, body) = create_store_handler(&mut state, CreateStoreRequest { name: name.to_string(), address: "a".to_string() });
        assert_eq!(status, 400);
        assert_eq!(body.code, 1);
        assert_eq!(body.message, "门店名称不能为空");
        assert!(body.data.is_none());
    }
}

#[test]
fn create_store_keeps_untrimmed_name() {
    let mut state = AppState::new();
    let (status, body) = create_store_handler(&mut state, CreateStoreRequest { name: "  店 ".to_string(), address: "a".to_string() });
    assert_eq!(status, 201);
    assert_eq!(body.code, 0);
    let s = body.data.unwrap();
    assert_eq!(s.name, "  店 ");
    let (status, body) = get_store_handler(&state, s.id);
    assert_eq!(status, 200);
    assert_eq!(body.data.unwrap().name, "  店 ");
    let (status, body) = get_store_handler(&state, s.id.wrapping_add(1));
    assert_eq!((status, body.message.as_str()), (404, "门店不存在"));
}

#[test]
fn add_hours_handler_answers() {
    let mut state = AppState::new();
    let (_, body) = create_store_handler(&mut state, CreateStoreRequest { name: "店".to_string(), address: "a".to_string() });
    let id = body.data.unwrap().id;
    let same = CreateBusinessHoursRequest { store_id: id, weekday: Weekday::Mon, open_time: hm(9, 0), close_time: hm(9, 0), is_closed: false };
    let (status, body) = add_business_hours_handler(&mut state, same);
    assert_eq!((status, body.message.as_str()), (400, "结束时间不能等于开始时间"));
    let closed_same = CreateBusinessHoursRequest { is_closed: true, ..same };
    let (status, body) = add_business_hours_handler(&mut state, closed_same);
    assert_eq!(status, 201);
    assert!(body.data.unwrap().is_closed);
    let ok = CreateBusinessHoursRequest { close_time: hm(21, 0), ..same };
    let (status, body) = add_business_hours_handler(&mut state, ok);
    assert_eq!(status, 201);
    assert_eq!(body.data.unwrap().weekday_name, "星期一");
    let missing = CreateBusinessHoursRequest { store_id: id.wrapping_add(1), ..ok };
    let (status, body) = add_business_hours_handler(&mut state, missing);
    assert_eq!((status, body.message.as_str()), (404, "门店不存在"));
    let (status, body) = get_business_hours_handler(&state, id);
    assert_eq!(status, 200);
    let listed = body.data.unwrap();
    assert_eq!(listed.len(), 1);
    assert!(!listed[0].is_closed);
}

#[test]
fn batch_handler_answers() {
    let mut state = AppState::new();
    let (_, body) = create_store_handler(&mut state, CreateStoreRequest { name: "店".to_string(), address: "a".to_string() });
    let id = body.data.unwrap().id;
    let (status, body) = batch_add_business_hours_handler(&mut state, BatchCreateBusinessHoursRequest { store_id: id, hours: vec![] });
    assert_eq!((status, body.message.as_str()), (400, "营业时间列表不能为空"));
    let good = BusinessHoursItem { weekday: Weekday::Mon, open_time: hm(9, 0), close_time: hm(21, 0), is_closed: false };
    let bad = BusinessHoursItem { weekday: Weekday::Tue, open_time: hm(9, 0), close_time: hm(9, 0), is_closed: false };
    let (status, body) = batch_add_business_hours_handler(&mut state, BatchCreateBusinessHoursRequest { store_id: id, hours: vec![good, bad] });
    assert_eq!((status, body.message.as_str()), (400, "营业时间配置错误：结束时间不能等于开始时间"));
    let (_, body) = get_business_hours_handler(&state, id);
    assert_eq!(body.data.unwrap().len(), 0);
    let (status, body) = batch_add_business_hours_handler(&mut state, BatchCreateBusinessHoursRequest { store_id: id.wrapping_add(1), hours: vec![good] });
    assert_eq!((status, body.message.as_str()), (404, "门店不存在"));
    let (status, body) = batch_add_business_hours_handler(&mut state, BatchCreateBusinessHoursRequest { store_id: id, hours: vec![good] });
    assert_eq!(status, 201);
    assert_eq!(body.data.unwrap().len(), 1);
}

#[test]
fn status_handler_answers() {
    let mut state = AppState::new();
    let id = state.seed_demo_data();
    let (status, body) = get_business_status_handler(&state, id);
    assert_eq!(status, 200);
    assert_eq!(body.data.unwrap().store_name, "示例门店");
    let (status, body) = get_business_status_handler(&state, id.wrapping_add(1));
    assert_eq!((status, body.message.as_str()), (404, "门店不存在"));
}
