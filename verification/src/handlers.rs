//! The service's answers: for each request, the HTTP status and the
//! response body, and the effect on the state.

use crate::calendar::DateTime;
use crate::models::{
    BatchCreateBusinessHoursRequest, BusinessHoursItem, BusinessHoursResponse,
    BusinessStatusResponse, CreateBusinessHoursRequest, Store,
};
use crate::schedule::status_fits;
use crate::store::{
    add_business_hours, after_add, after_items, batch_add_business_hours, create_store, date_out_of_range_text,
    entry_of_item, entry_of_request, get_business_hours, get_business_status, get_store, ids_of,
    is_random_uuid, store_missing_text, AppState,
};
use crate::weekly::weekly_listing;
use vstd::prelude::*;

verus! {

broadcast use vstd::string::to_string_from_display_ensures_for_str;

/// The body of every answer: `code` 0 with the message "success" where the
/// request succeeded, with the data asked for where there is any; otherwise
/// a non-zero code and a message that says what went wrong.
pub struct ApiResponse<T> {
    pub code: i32,
    pub message: String,
    pub data: Option<T>,
}

/// The message of a successful answer.
pub open spec fn success_text() -> Seq<char> {
    "success"@
}

impl<T> ApiResponse<T> {
    /// A successful answer carrying `data`.
    pub fn success(data: T) -> (r: Self)
        ensures
            r.code == 0,
            r.message@ == success_text(),
            r.data == Some(data),
    {
        ApiResponse { code: 0, message: "success".to_string(), data: Some(data) }
    }

    /// A successful answer without data.
    pub fn success_no_data() -> (r: Self)
        ensures
            r.code == 0,
            r.message@ == success_text(),
            r.data is None,
    {
        ApiResponse { code: 0, message: "success".to_string(), data: None }
    }

    /// A failed answer with the given message.
    pub fn error(message: &str) -> (r: Self)
        ensures
            r.code == 1,
            r.message@ == message@,
            r.data is None,
    {
        ApiResponse { code: 1, message: message.to_string(), data: None }
    }
}

/// A request to create a store.
pub struct CreateStoreRequest {
    pub name: String,
    pub address: String,
}

/// Whether `r` is the failed answer with HTTP status `status` and message
/// `text`.
pub open spec fn fails_with<T>(r: (u16, ApiResponse<T>), status: u16, text: Seq<char>) -> bool {
    &&& r.0 == status
    &&& r.1.code == 1
    &&& r.1.message@ == text
    &&& r.1.data is None
}

/// Whether `r` is a successful answer with HTTP status `status` and data.
pub open spec fn succeeds_with<T>(r: (u16, ApiResponse<T>), status: u16) -> bool {
    &&& r.0 == status
    &&& r.1.code == 0
    &&& r.1.message@ == success_text()
    &&& r.1.data is Some
}

/// The text of `s` without its leading and trailing white space, as std's
/// `str::trim` gives it.
pub uninterp spec fn trimmed(s: Seq<char>) -> Seq<char>;

/// std's `str::trim`: the result is claimed to be `trimmed` of the text.
#[verifier::external_body]
fn trim_text(s: &str) -> (r: &str)
    ensures
        r@ == trimmed(s@),
{
    s.trim()
}

/// The answer to a health check: status 200, code 0, "Service is running".
pub fn health_check() -> (r: (u16, ApiResponse<String>))
    ensures
        r.0 == 200,
        r.1.code == 0,
        r.1.message@ == "Service is running"@,
        r.1.data is None,
{
    (200, ApiResponse { code: 0, message: "Service is running".to_string(), data: None })
}

/// The answer to a request for no known route: status 404, code 404,
/// "Not Found".
pub fn not_found() -> (r: (u16, ApiResponse<String>))
    ensures
        r.0 == 404,
        r.1.code == 404,
        r.1.message@ == "Not Found"@,
        r.1.data is None,
{
    (404, ApiResponse { code: 404, message: "Not Found".to_string(), data: None })
}

/// Creates a store: 400 where the name is blank (nothing but white space),
/// else 201 with the new store (see `create_store`).
pub fn create_store_handler(state: &mut AppState, req: CreateStoreRequest) -> (r: (
    u16,
    ApiResponse<Store>,
))
    requires
        old(state).wf(),
    ensures
        final(state).wf(),
        trimmed(req.name@).len() == 0 ==> fails_with(r, 400, "门店名称不能为空"@) && final(state).stores_view() == old(state).stores_view() && final(state).hours_view() == old(state).hours_view(),
        trimmed(req.name@).len() != 0 ==> succeeds_with(r, 201) && ({
            let s = r.1.data->0;
            &&& is_random_uuid(s.id)
            &&& s.created_at.wf()
            &&& s@.name == req.name@
            &&& s@.address == req.address@
            &&& final(state).stores_view() == old(state).stores_view().insert(s.id, s@)
            &&& final(state).hours_view() == old(state).hours_view().insert(s.id, seq![])
        }),
{
    if trim_text(req.name.as_str()).is_empty() {
        let response: ApiResponse<Store> = ApiResponse::error("门店名称不能为空");
        return (400, response);
    }
    let store = create_store(state, req.name, req.address);
    (201, ApiResponse::success(store))
}

/// The store `store_id`: 200 with it, or 404 where it does not exist.
pub fn get_store_handler(state: &AppState, store_id: u128) -> (r: (u16, ApiResponse<Store>))
    ensures
        state.stores_view().contains_key(store_id) ==> succeeds_with(r, 200) && r.1.data->0@
            == state.stores_view()[store_id],
        !state.stores_view().contains_key(store_id) ==> fails_with(r, 404, store_missing_text()),
        state.wf() && r.0 == 200 ==> r.1.data->0.id == store_id,
{
    match get_store(state, store_id) {
        Some(store) => (200, ApiResponse::success(store)),
        None => {
            let response: ApiResponse<Store> = ApiResponse::error("门店不存在");
            (404, response)
        },
    }
}

/// Whether a day's hours would open and close at the same moment.
pub open spec fn empty_window(is_closed: bool, open_time: crate::calendar::TimeOfDay, close_time: crate::calendar::TimeOfDay) -> bool {
    !is_closed && close_time == open_time
}

/// Sets one weekday's hours: 400 where the day is not closed and closes when
/// it opens; 404 where the store does not exist; else 201 with the new entry
/// (see `add_business_hours`).
pub fn add_business_hours_handler(state: &mut AppState, req: CreateBusinessHoursRequest) -> (r: (
    u16,
    ApiResponse<BusinessHoursResponse>,
))
    requires
        old(state).wf(),
    ensures
        final(state).wf(),
        (!req.is_closed && req.close_time == req.open_time) ==> fails_with(
            r,
            400,
            "结束时间不能等于开始时间"@,
        ) && final(state).stores_view() == old(state).stores_view() && final(state).hours_view()
            == old(state).hours_view(),
        !(!req.is_closed && req.close_time == req.open_time) && !old(state).stores_view().contains_key(req.store_id) ==> fails_with(r, 404, store_missing_text())
            && final(state).stores_view() == old(state).stores_view() && final(state).hours_view()
            == old(state).hours_view(),
        !(!req.is_closed && req.close_time == req.open_time) && old(state).stores_view().contains_key(req.store_id) ==> succeeds_with(r, 201) && ({
            let resp = r.1.data->0;
            &&& is_random_uuid(resp.id)
            &&& resp.describes(entry_of_request(req, resp.id))
            &&& final(state).stores_view() == old(state).stores_view()
            &&& final(state).hours_view() == after_add(old(state).hours_view(), req, resp.id)
        }),
{
    if !req.is_closed && req.close_time == req.open_time {
        let response: ApiResponse<BusinessHoursResponse> = ApiResponse::error(
            "结束时间不能等于开始时间",
        );
        return (400, response);
    }
    match add_business_hours(state, req) {
        Ok(hours) => (201, ApiResponse::success(hours)),
        Err(e) => {
            let response: ApiResponse<BusinessHoursResponse> = ApiResponse::error(e.as_str());
            (404, response)
        },
    }
}

/// Whether some item of `items` is not closed and closes when it opens.
pub open spec fn has_empty_window(items: Seq<BusinessHoursItem>) -> bool {
    exists|i: int|
        0 <= i < items.len() && #[trigger] empty_window(
            items[i].is_closed,
            items[i].open_time,
            items[i].close_time,
        )
}

/// Sets several weekdays' hours: 400 where no item is given, or where some
/// item is not closed and closes when it opens; 404 where the store does
/// not exist; else 201 with the new entries (see
/// `batch_add_business_hours`).
pub fn batch_add_business_hours_handler(
    state: &mut AppState,
    req: BatchCreateBusinessHoursRequest,
) -> (r: (u16, ApiResponse<Vec<BusinessHoursResponse>>))
    requires
        old(state).wf(),
    ensures
        final(state).wf(),
        req.hours.len() == 0 ==> fails_with(r, 400, "营业时间列表不能为空"@),
        req.hours.len() != 0 && (exists|i: int|
            0 <= i < req.hours.len() && !(#[trigger] req.hours[i]).is_closed && req.hours[i].close_time
                == req.hours[i].open_time) ==> fails_with(
            r,
            400,
            "营业时间配置错误：结束时间不能等于开始时间"@,
        ),
        req.hours.len() == 0 || (exists|i: int|
            0 <= i < req.hours.len() && !(#[trigger] req.hours[i]).is_closed && req.hours[i].close_time
                == req.hours[i].open_time) || !old(state).stores_view().contains_key(req.store_id) ==> final(state).stores_view() == old(state).stores_view() && final(state).hours_view() == old(state).hours_view(),
        req.hours.len() != 0 && !(exists|i: int|
            0 <= i < req.hours.len() && !(#[trigger] req.hours[i]).is_closed && req.hours[i].close_time
                == req.hours[i].open_time) && !old(state).stores_view().contains_key(req.store_id) ==> fails_with(r, 404, store_missing_text()),
        req.hours.len() != 0 && !(exists|i: int|
            0 <= i < req.hours.len() && !(#[trigger] req.hours[i]).is_closed && req.hours[i].close_time
                == req.hours[i].open_time) && old(state).stores_view().contains_key(req.store_id) ==> succeeds_with(r, 201) && ({
            let rs = r.1.data->0;
            &&& rs.len() == req.hours.len()
            &&& forall|i: int|
                0 <= i < rs.len() ==> is_random_uuid(#[trigger] rs[i].id) && rs[i].describes(
                    entry_of_item(req.store_id, req.hours[i], rs[i].id),
                )
            &&& final(state).stores_view() == old(state).stores_view()
            &&& final(state).hours_view() == old(state).hours_view().insert(
                req.store_id,
                after_items(
                    old(state).hours_of(req.store_id),
                    req.store_id,
                    req.hours@,
                    ids_of(rs@),
                    req.hours.len() as nat,
                ),
            )
        }),
{
    if req.hours.len() == 0 {
        let response: ApiResponse<Vec<BusinessHoursResponse>> = ApiResponse::error(
            "营业时间列表不能为空",
        );
        return (400, response);
    }
    let n = req.hours.len();
    for i in 0..n
        invariant
            n == req.hours.len(),
            n > 0,
            state.wf(),
            state.stores_view() == old(state).stores_view(),
            state.hours_view() == old(state).hours_view(),
            forall|j: int|
                0 <= j < i ==> !(!(#[trigger] req.hours[j]).is_closed && req.hours[j].close_time
                    == req.hours[j].open_time),
    {
        let item = &req.hours[i];
        if !item.is_closed && item.close_time == item.open_time {
            assert(!req.hours[i as int].is_closed && req.hours[i as int].close_time
                == req.hours[i as int].open_time);
            assert(empty_window(
                req.hours[i as int].is_closed,
                req.hours[i as int].open_time,
                req.hours[i as int].close_time,
            ));
            let response: ApiResponse<Vec<BusinessHoursResponse>> = ApiResponse::error(
                "营业时间配置错误：结束时间不能等于开始时间",
            );
            return (400, response);
        }
    }
    match batch_add_business_hours(state, req) {
        Ok(hours) => (201, ApiResponse::success(hours)),
        Err(e) => {
            let response: ApiResponse<Vec<BusinessHoursResponse>> = ApiResponse::error(
                e.as_str(),
            );
            (404, response)
        },
    }
}

/// The hours of store `store_id`, Monday to Sunday: 200 with them (see
/// `get_business_hours`), or 404 where the store does not exist.
pub fn get_business_hours_handler(state: &AppState, store_id: u128) -> (r: (
    u16,
    ApiResponse<Vec<BusinessHoursResponse>>,
))
    ensures
        !state.stores_view().contains_key(store_id) ==> fails_with(r, 404, store_missing_text()),
        state.stores_view().contains_key(store_id) ==> succeeds_with(r, 200) && ({
            let rs = r.1.data->0;
            &&& rs.len() == weekly_listing(state.hours_of(store_id)).len()
            &&& forall|i: int|
                0 <= i < rs.len() ==> #[trigger] rs[i].describes(
                    weekly_listing(state.hours_of(store_id))[i],
                )
        }),
{
    match get_business_hours(state, store_id) {
        Ok(hours) => (200, ApiResponse::success(hours)),
        Err(e) => {
            let response: ApiResponse<Vec<BusinessHoursResponse>> = ApiResponse::error(
                e.as_str(),
            );
            (404, response)
        },
    }
}

/// Whether `r` is the answer, for store `store_id` at the moment `now`:
/// 404 with the missing-store text where the store does not exist; else 200
/// with the status (see `BusinessStatusResponse::reports`) where the dates
/// it passes through lie in the calendar's range (see `status_fits`); else
/// 404 with the out-of-range text.
pub open spec fn replies_status_at(
    state: AppState,
    store_id: u128,
    now: DateTime,
    r: (u16, ApiResponse<BusinessStatusResponse>),
) -> bool {
    if !state.stores_view().contains_key(store_id) {
        fails_with(r, 404, store_missing_text())
    } else if status_fits(state.hours_of(store_id), now) {
        succeeds_with(r, 200) && r.1.data->0.reports(
            state.stores_view()[store_id],
            state.hours_of(store_id),
            now,
        )
    } else {
        fails_with(r, 404, date_out_of_range_text())
    }
}

/// Whether store `store_id` is open now, by the machine's local clock (see
/// `replies_status_at` for the moment the clock gives).
pub fn get_business_status_handler(state: &AppState, store_id: u128) -> (r: (
    u16,
    ApiResponse<BusinessStatusResponse>,
))
    ensures
        !state.stores_view().contains_key(store_id) ==> fails_with(r, 404, store_missing_text()),
        exists|now: DateTime| now.wf() && #[trigger] replies_status_at(*state, store_id, now, r),
        state.wf() && r.0 == 200 ==> r.1.data->0.store_id == store_id,
{
    let result = get_business_status(state, store_id);
    let ghost answer = result;
    let ghost now = choose|now: DateTime|
        now.wf() && #[trigger] state.answers_status_at(store_id, now, answer);
    let r = match result {
        Ok(status) => (200, ApiResponse::success(status)),
        Err(e) => {
            let response: ApiResponse<BusinessStatusResponse> = ApiResponse::error(e.as_str());
            (404, response)
        },
    };
    assert(replies_status_at(*state, store_id, now, r));
    r
}

/// A day's hours are refused as empty exactly when the day is not closed
/// and it closes at the time it opens; hours that run past midnight are not.
pub proof fn lemma_only_equal_times_are_empty(items: Seq<BusinessHoursItem>, req: CreateBusinessHoursRequest)
    ensures
        empty_window(req.is_closed, req.open_time, req.close_time) <==> (!req.is_closed
            && req.open_time == req.close_time),
        req.close_time.precedes(req.open_time) ==> !empty_window(
            req.is_closed,
            req.open_time,
            req.close_time,
        ),
        has_empty_window(items) <==> exists|i: int|
            0 <= i < items.len() && !(#[trigger] items[i]).is_closed && items[i].open_time
                == items[i].close_time,
        (forall|i: int|
            0 <= i < items.len() ==> (#[trigger] items[i]).close_time.precedes(items[i].open_time))
            ==> !has_empty_window(items),
{
    if has_empty_window(items) {
        let i = choose|i: int|
            0 <= i < items.len() && #[trigger] empty_window(
                items[i].is_closed,
                items[i].open_time,
                items[i].close_time,
            );
        assert(!items[i].is_closed && items[i].open_time == items[i].close_time);
    }
    if exists|i: int|
        0 <= i < items.len() && !(#[trigger] items[i]).is_closed && items[i].open_time
            == items[i].close_time {
        let i = choose|i: int|
            0 <= i < items.len() && !(#[trigger] items[i]).is_closed && items[i].open_time
                == items[i].close_time;
        assert(empty_window(items[i].is_closed, items[i].open_time, items[i].close_time));
    }
}

} // verus!
