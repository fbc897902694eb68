//! The service's state: the stores and the weekly hours of each, with the
//! operations that create stores, set hours and read them back.

use crate::calendar::{chrono_local_now, Date, DateTime, TimeOfDay, Weekday};
use crate::models::{
    BatchCreateBusinessHoursRequest, BusinessHours, BusinessHoursItem, BusinessHoursResponse,
    BusinessStatusResponse, CreateBusinessHoursRequest, Store, StoreView,
};
use crate::schedule::{status_at, status_fits, status_fits_calendar};
use crate::weekly::{
    all_of_store, lemma_set_day_keeps_shape, lemma_set_day_then_listed, lemma_set_day_then_read,
    lemma_set_day_twice, listed_once, one_entry_per_day, set_day, weekly_listing,
    weekly_order, with_day_replaced, with_weekday,
};
use std::collections::HashMap;
use vstd::prelude::*;

verus! {

broadcast use {vstd::std_specs::hash::group_hash_axioms, vstd::string::to_string_from_display_ensures_for_str};

/// The answer when a store does not exist.
pub open spec fn store_missing_text() -> Seq<char> {
    "门店不存在"@
}

/// The answer when the clock's date is too close to the end of the calendar
/// for the status to be worked out.
pub open spec fn date_out_of_range_text() -> Seq<char> {
    "当前日期超出可计算范围"@
}

/// Whether `id` is laid out as a random (version 4) UUID: version 4 and
/// the RFC 4122 variant.
pub open spec fn is_random_uuid(id: u128) -> bool {
    (id >> 76u128) & 0xfu128 == 4 && (id >> 62u128) & 0x3u128 == 2
}

/// uuid's `Uuid::new_v4`, as its 128-bit value: random, so only its version
/// and variant bits are claimed.
#[verifier::external_body]
fn new_uuid() -> (id: u128)
    ensures
        is_random_uuid(id),
{
    uuid::Uuid::new_v4().as_u128()
}

/// The stores and, for each store, its weekly hours.
pub struct AppState {
    stores: HashMap<u128, Store>,
    business_hours: HashMap<u128, Vec<BusinessHours>>,
}

impl AppState {
    /// The stores, by id.
    pub closed spec fn stores_view(&self) -> Map<u128, StoreView> {
        self.stores@.map_values(|s: Store| s@)
    }

    /// The weekly hours of each store, by store id.
    pub closed spec fn hours_view(&self) -> Map<u128, Seq<BusinessHours>> {
        self.business_hours@.map_values(|v: Vec<BusinessHours>| v@)
    }

    /// Every store is kept under its own id, and every store's hours hold at
    /// most one entry per weekday, each one belonging to that store.
    pub open spec fn wf(&self) -> bool {
        &&& forall|id: u128|
            #[trigger] self.hours_view().contains_key(id) ==> one_entry_per_day(self.hours_view()[id])
                && all_of_store(self.hours_view()[id], id)
        &&& forall|id: u128| #[trigger] self.stores_view().contains_key(id) ==> self.stores_view()[id].id == id
    }

    /// The hours of store `id`; none where nothing is kept for it.
    pub open spec fn hours_of(&self, id: u128) -> Seq<BusinessHours> {
        hours_in(self.hours_view(), id)
    }

    /// No stores and no hours.
    pub fn new() -> (s: AppState)
        ensures
            s.wf(),
            s.stores_view() == Map::<u128, StoreView>::empty(),
            s.hours_view() == Map::<u128, Seq<BusinessHours>>::empty(),
    {
        let s = AppState { stores: HashMap::new(), business_hours: HashMap::new() };
        assert(s.stores_view() =~= Map::<u128, StoreView>::empty());
        assert(s.hours_view() =~= Map::<u128, Seq<BusinessHours>>::empty());
        s
    }
}

/// Adds the store `id` with the given name, address and creation time, and
/// gives it no hours; a store with that id is replaced.
pub fn insert_store(
    state: &mut AppState,
    id: u128,
    name: String,
    address: String,
    created_at: DateTime,
) -> (r: Store)
    requires
        old(state).wf(),
    ensures
        final(state).wf(),
        r@ == (StoreView { id, name: name@, address: address@, created_at }),
        final(state).stores_view() == old(state).stores_view().insert(id, r@),
        final(state).hours_view() == old(state).hours_view().insert(id, Seq::<BusinessHours>::empty()),
{
    let store = Store { id, name, address, created_at };
    let ghost old_stores = state.stores@;
    let ghost old_hours = state.business_hours@;
    state.stores.insert(id, store.clone());
    state.business_hours.insert(id, Vec::new());
    assert(state.stores_view() =~= old(state).stores_view().insert(id, store@));
    assert(state.hours_view() =~= old(state).hours_view().insert(id, Seq::<BusinessHours>::empty()));
    assert forall|k: u128| #[trigger] state.hours_view().contains_key(k) implies one_entry_per_day(
        state.hours_view()[k],
    ) && all_of_store(state.hours_view()[k], k) by {
        if k == id {
            assert forall|w: Weekday| #[trigger] with_weekday(state.hours_view()[k], w).len()
                <= 1 by {
                assert(with_weekday(Seq::<BusinessHours>::empty(), w).len() == 0);
            }
        } else {
            assert(old(state).hours_view().contains_key(k));
        }
    }
    store
}

/// Creates a store with a fresh random id and the current local time as its
/// creation time, and gives it no hours.
pub fn create_store(state: &mut AppState, name: String, address: String) -> (r: Store)
    requires
        old(state).wf(),
    ensures
        final(state).wf(),
        is_random_uuid(r.id),
        r.created_at.wf(),
        r@.name == name@,
        r@.address == address@,
        final(state).stores_view() == old(state).stores_view().insert(r.id, r@),
        final(state).hours_view() == old(state).hours_view().insert(
            r.id,
            Seq::<BusinessHours>::empty(),
        ),
{
    let id = new_uuid();
    let created_at = chrono_local_now();
    insert_store(state, id, name, address, created_at)
}

/// The store `store_id`, if it exists.
pub fn get_store(state: &AppState, store_id: u128) -> (r: Option<Store>)
    ensures
        r is Some <==> state.stores_view().contains_key(store_id),
        r matches Some(s) ==> s@ == state.stores_view()[store_id],
        state.wf() ==> (r matches Some(s) ==> s.id == store_id),
{
    match state.stores.get(&store_id) {
        Some(s) => Some(s.clone()),
        None => None,
    }
}

/// The hours kept for store `id` in `m`; none where nothing is kept for it.
pub open spec fn hours_in(m: Map<u128, Seq<BusinessHours>>, id: u128) -> Seq<BusinessHours> {
    if m.contains_key(id) {
        m[id]
    } else {
        seq![]
    }
}

/// The hours of all stores after the request `req` sets one weekday of its
/// store as the entry with id `id`.
pub open spec fn after_add(
    m: Map<u128, Seq<BusinessHours>>,
    req: CreateBusinessHoursRequest,
    id: u128,
) -> Map<u128, Seq<BusinessHours>> {
    m.insert(req.store_id, with_day_replaced(hours_in(m, req.store_id), entry_of_request(req, id)))
}

/// The entry that a request to set one weekday's hours makes, with id `id`.
pub open spec fn entry_of_request(req: CreateBusinessHoursRequest, id: u128) -> BusinessHours {
    BusinessHours {
        id,
        store_id: req.store_id,
        weekday: req.weekday,
        open_time: req.open_time,
        close_time: req.close_time,
        is_closed: req.is_closed,
    }
}

/// Replaces the hours of `entry`'s weekday in the hours of store `store_id`
/// by `entry`.
fn set_store_day(state: &mut AppState, store_id: u128, entry: BusinessHours)
    requires
        old(state).wf(),
        entry.store_id == store_id,
    ensures
        final(state).wf(),
        final(state).stores_view() == old(state).stores_view(),
        final(state).hours_view() == old(state).hours_view().insert(
            store_id,
            with_day_replaced(old(state).hours_of(store_id), entry),
        ),
{
    let mut hours = match state.business_hours.remove(&store_id) {
        Some(v) => v,
        None => Vec::new(),
    };
    assert(hours@ == old(state).hours_of(store_id));
    proof {
        if !old(state).hours_view().contains_key(store_id) {
            assert forall|w: Weekday| #[trigger] with_weekday(hours@, w).len() <= 1 by {
                assert(with_weekday(Seq::<BusinessHours>::empty(), w).len() == 0);
            }
        } else {
            assert(old(state).hours_view().contains_key(store_id));
        }
        lemma_set_day_keeps_shape(hours@, entry, store_id);
    }
    set_day(&mut hours, entry);
    state.business_hours.insert(store_id, hours);
    assert(state.stores_view() =~= old(state).stores_view());
    assert(state.hours_view() =~= old(state).hours_view().insert(
        store_id,
        with_day_replaced(old(state).hours_of(store_id), entry),
    ));
    assert forall|k: u128| #[trigger] state.hours_view().contains_key(k) implies one_entry_per_day(
        state.hours_view()[k],
    ) && all_of_store(state.hours_view()[k], k) by {
        if k != store_id {
            assert(old(state).hours_view().contains_key(k));
        }
    }
}

/// Sets the hours of one weekday of the store the request names, as the
/// entry with id `id`; `Err` with the missing-store text where that store
/// does not exist, and then nothing changes.
pub fn add_business_hours_with_id(
    state: &mut AppState,
    req: CreateBusinessHoursRequest,
    id: u128,
) -> (r: Result<BusinessHoursResponse, String>)
    requires
        old(state).wf(),
    ensures
        final(state).wf(),
        r is Err <==> !old(state).stores_view().contains_key(req.store_id),
        r matches Err(e) ==> e@ == store_missing_text() && final(state).stores_view() == old(state).stores_view() && final(state).hours_view() == old(state).hours_view(),
        r matches Ok(resp) ==> {
            &&& resp.describes(entry_of_request(req, id))
            &&& final(state).stores_view() == old(state).stores_view()
            &&& final(state).hours_view() == after_add(old(state).hours_view(), req, id)
        },
{
    if !state.stores.contains_key(&req.store_id) {
        return Err("门店不存在".to_string());
    }
    let hours = BusinessHours {
        id,
        store_id: req.store_id,
        weekday: req.weekday,
        open_time: req.open_time,
        close_time: req.close_time,
        is_closed: req.is_closed,
    };
    let response = BusinessHoursResponse::of_hours(&hours);
    set_store_day(state, req.store_id, hours);
    Ok(response)
}

/// Sets the hours of one weekday of the store the request names, under a
/// fresh random id (see `add_business_hours_with_id`).
pub fn add_business_hours(state: &mut AppState, req: CreateBusinessHoursRequest) -> (r: Result<
    BusinessHoursResponse,
    String,
>)
    requires
        old(state).wf(),
    ensures
        final(state).wf(),
        r is Err <==> !old(state).stores_view().contains_key(req.store_id),
        r matches Err(e) ==> e@ == store_missing_text() && final(state).stores_view() == old(state).stores_view() && final(state).hours_view() == old(state).hours_view(),
        r matches Ok(resp) ==> {
            &&& is_random_uuid(resp.id)
            &&& resp.describes(entry_of_request(req, resp.id))
            &&& final(state).stores_view() == old(state).stores_view()
            &&& final(state).hours_view() == after_add(old(state).hours_view(), req, resp.id)
        },
{
    let id = new_uuid();
    add_business_hours_with_id(state, req, id)
}

/// The entry that an item of a request for several weekdays makes for store
/// `store_id`, with id `id`.
pub open spec fn entry_of_item(store_id: u128, item: BusinessHoursItem, id: u128) -> BusinessHours {
    BusinessHours {
        id,
        store_id,
        weekday: item.weekday,
        open_time: item.open_time,
        close_time: item.close_time,
        is_closed: item.is_closed,
    }
}

/// `hours` after setting, one after the other, the weekdays of the first `n`
/// items for store `store_id`, the `i`-th with id `ids[i]`.
pub open spec fn after_items(
    hours: Seq<BusinessHours>,
    store_id: u128,
    items: Seq<BusinessHoursItem>,
    ids: Seq<u128>,
    n: nat,
) -> Seq<BusinessHours>
    decreases n,
{
    if n == 0 {
        hours
    } else {
        with_day_replaced(
            after_items(hours, store_id, items, ids, (n - 1) as nat),
            entry_of_item(store_id, items[n - 1], ids[n - 1]),
        )
    }
}

/// Sets the hours of several weekdays of the store the request names, one
/// item after the other, the `i`-th item under id `ids[i]`; `Err` with the
/// missing-store text where that store does not exist, and then nothing
/// changes.
pub fn batch_add_business_hours_with_ids(
    state: &mut AppState,
    req: BatchCreateBusinessHoursRequest,
    ids: &Vec<u128>,
) -> (r: Result<Vec<BusinessHoursResponse>, String>)
    requires
        old(state).wf(),
        ids.len() == req.hours.len(),
    ensures
        final(state).wf(),
        r is Err <==> !old(state).stores_view().contains_key(req.store_id),
        r matches Err(e) ==> e@ == store_missing_text() && final(state).stores_view() == old(state).stores_view() && final(state).hours_view() == old(state).hours_view(),
        r matches Ok(rs) ==> {
            &&& rs.len() == req.hours.len()
            &&& forall|i: int|
                0 <= i < rs.len() ==> #[trigger] rs[i].describes(
                    entry_of_item(req.store_id, req.hours[i], ids[i]),
                )
            &&& final(state).stores_view() == old(state).stores_view()
            &&& final(state).hours_view() == old(state).hours_view().insert(
                req.store_id,
                after_items(
                    old(state).hours_of(req.store_id),
                    req.store_id,
                    req.hours@,
                    ids@,
                    req.hours.len() as nat,
                ),
            )
        },
{
    if !state.stores.contains_key(&req.store_id) {
        return Err("门店不存在".to_string());
    }
    let store_id = req.store_id;
    let mut responses: Vec<BusinessHoursResponse> = Vec::new();
    let mut store_hours = match state.business_hours.remove(&store_id) {
        Some(v) => v,
        None => Vec::new(),
    };
    let ghost start = old(state).hours_of(store_id);
    assert(store_hours@ == start);
    proof {
        if !old(state).hours_view().contains_key(store_id) {
            assert forall|w: Weekday| #[trigger] with_weekday(store_hours@, w).len() <= 1 by {
                assert(with_weekday(Seq::<BusinessHours>::empty(), w).len() == 0);
            }
        } else {
            assert(old(state).hours_view().contains_key(store_id));
        }
    }
    let n = req.hours.len();
    for i in 0..n
        invariant
            n == req.hours.len(),
            n == ids.len(),
            store_id == req.store_id,
            store_hours@ == after_items(start, store_id, req.hours@, ids@, i as nat),
            one_entry_per_day(store_hours@),
            all_of_store(store_hours@, store_id),
            responses.len() == i,
            forall|j: int|
                0 <= j < i ==> #[trigger] responses[j].describes(
                    entry_of_item(store_id, req.hours[j], ids[j]),
                ),
    {
        let item = req.hours[i];
        let hours = BusinessHours {
            id: ids[i],
            store_id,
            weekday: item.weekday,
            open_time: item.open_time,
            close_time: item.close_time,
            is_closed: item.is_closed,
        };
        responses.push(BusinessHoursResponse::of_hours(&hours));
        proof {
            lemma_set_day_keeps_shape(store_hours@, hours, store_id);
        }
        set_day(&mut store_hours, hours);
    }
    state.business_hours.insert(store_id, store_hours);
    assert(state.stores_view() =~= old(state).stores_view());
    assert(state.hours_view() =~= old(state).hours_view().insert(
        store_id,
        after_items(start, store_id, req.hours@, ids@, n as nat),
    ));
    assert forall|k: u128| #[trigger] state.hours_view().contains_key(k) implies one_entry_per_day(
        state.hours_view()[k],
    ) && all_of_store(state.hours_view()[k], k) by {
        if k != store_id {
            assert(old(state).hours_view().contains_key(k));
        }
    }
    Ok(responses)
}

/// The ids that a list of answers reports.
pub open spec fn ids_of(rs: Seq<BusinessHoursResponse>) -> Seq<u128> {
    rs.map_values(|r: BusinessHoursResponse| r.id)
}

/// Sets the hours of several weekdays of the store the request names, one
/// item after the other, each under a fresh random id (see
/// `batch_add_business_hours_with_ids`).
pub fn batch_add_business_hours(state: &mut AppState, req: BatchCreateBusinessHoursRequest) -> (r:
    Result<Vec<BusinessHoursResponse>, String>)
    requires
        old(state).wf(),
    ensures
        final(state).wf(),
        r is Err <==> !old(state).stores_view().contains_key(req.store_id),
        r matches Err(e) ==> e@ == store_missing_text() && final(state).stores_view() == old(state).stores_view() && final(state).hours_view() == old(state).hours_view(),
        r matches Ok(rs) ==> {
            &&& rs.len() == req.hours.len()
            &&& forall|i: int|
                0 <= i < rs.len() ==> is_random_uuid(#[trigger] rs[i].id) && rs[i].describes(
                    entry_of_item(req.store_id, req.hours[i], rs[i].id),
                )
            &&& final(state).stores_view() == old(state).stores_view()
            &&& final(state).hours_view() == old(state).hours_view().insert(
                req.store_id,
                after_items(
                    old(state).hours_of(req.store_id),
                    req.store_id,
                    req.hours@,
                    ids_of(rs@),
                    req.hours.len() as nat,
                ),
            )
        },
{
    let n = req.hours.len();
    let mut ids: Vec<u128> = Vec::new();
    for i in 0..n
        invariant
            ids.len() == i,
            forall|j: int| 0 <= j < i ==> is_random_uuid(#[trigger] ids[j]),
    {
        ids.push(new_uuid());
    }
    let ghost items = req.hours@;
    let ghost store_id = req.store_id;
    let r = batch_add_business_hours_with_ids(state, req, &ids);
    proof {
        if r is Ok {
            let rs = r->Ok_0;
            assert forall|i: int| 0 <= i < rs.len() implies #[trigger] ids_of(rs@)[i] == ids@[i] by {
                assert(rs[i].describes(entry_of_item(store_id, items[i], ids[i])));
            }
            assert forall|i: int| 0 <= i < rs.len() implies is_random_uuid(#[trigger] rs[i].id)
                && rs[i].describes(entry_of_item(store_id, items[i], rs[i].id)) by {
                assert(rs[i].describes(entry_of_item(store_id, items[i], ids[i])));
                assert(is_random_uuid(ids[i]));
            }
            assert(ids_of(rs@) =~= ids@);
        }
    }
    r
}

/// The hours of store `store_id`, Monday to Sunday (see `weekly_listing`);
/// `Err` with the missing-store text where that store does not exist.
pub fn get_business_hours(state: &AppState, store_id: u128) -> (r: Result<
    Vec<BusinessHoursResponse>,
    String,
>)
    ensures
        r is Err <==> !state.stores_view().contains_key(store_id),
        r matches Err(e) ==> e@ == store_missing_text(),
        r matches Ok(rs) ==> {
            &&& rs.len() == weekly_listing(state.hours_of(store_id)).len()
            &&& forall|i: int|
                0 <= i < rs.len() ==> #[trigger] rs[i].describes(
                    weekly_listing(state.hours_of(store_id))[i],
                )
        },
{
    if !state.stores.contains_key(&store_id) {
        return Err("门店不存在".to_string());
    }
    let none: Vec<BusinessHours> = Vec::new();
    let hours = match state.business_hours.get(&store_id) {
        Some(v) => v,
        None => &none,
    };
    assert(hours@ == state.hours_of(store_id));
    let listing = weekly_order(hours.as_slice());
    let mut responses: Vec<BusinessHoursResponse> = Vec::new();
    let n = listing.len();
    for i in 0..n
        invariant
            n == listing.len(),
            listing@ == weekly_listing(state.hours_of(store_id)),
            responses.len() == i,
            forall|j: int| 0 <= j < i ==> #[trigger] responses[j].describes(listing[j]),
    {
        responses.push(BusinessHoursResponse::of_hours(&listing[i]));
    }
    Ok(responses)
}

impl AppState {
    /// Whether `r` answers, for store `store_id` at the moment `now`, whether
    /// it is open and when it next opens or closes: the missing-store error
    /// where the store does not exist; else the status (see
    /// `BusinessStatusResponse::reports`) where the dates it passes through
    /// lie in the calendar's range (see `status_fits`); else the
    /// out-of-range error.
    pub open spec fn answers_status_at(
        &self,
        store_id: u128,
        now: DateTime,
        r: Result<BusinessStatusResponse, String>,
    ) -> bool {
        if !self.stores_view().contains_key(store_id) {
            r matches Err(e) && e@ == store_missing_text()
        } else if status_fits(self.hours_of(store_id), now) {
            r matches Ok(resp) && resp.reports(self.stores_view()[store_id], self.hours_of(store_id), now)
        } else {
            r matches Err(e) && e@ == date_out_of_range_text()
        }
    }
}

/// Whether store `store_id` is open at `now` and when it next opens or
/// closes (see `AppState::answers_status_at`).
pub fn business_status_at(state: &AppState, store_id: u128, now: DateTime) -> (r: Result<
    BusinessStatusResponse,
    String,
>)
    requires
        now.wf(),
    ensures
        state.answers_status_at(store_id, now, r),
        state.wf() ==> (r matches Ok(resp) ==> resp.store_id == store_id),
{
    let store = match state.stores.get(&store_id) {
        Some(s) => s,
        None => {
            return Err("门店不存在".to_string());
        },
    };
    let none: Vec<BusinessHours> = Vec::new();
    let hours = match state.business_hours.get(&store_id) {
        Some(v) => v,
        None => &none,
    };
    assert(hours@ == state.hours_of(store_id));
    if !status_fits_calendar(hours.as_slice(), now) {
        return Err("当前日期超出可计算范围".to_string());
    }
    Ok(status_at(store, hours.as_slice(), now))
}

/// Whether store `store_id` is open now, by the machine's local clock, and
/// when it next opens or closes: the answer of `business_status_at` for the
/// moment the clock gives.
pub fn get_business_status(state: &AppState, store_id: u128) -> (r: Result<
    BusinessStatusResponse,
    String,
>)
    ensures
        !state.stores_view().contains_key(store_id) ==> (r matches Err(e) && e@
            == store_missing_text()),
        exists|now: DateTime| now.wf() && #[trigger] state.answers_status_at(store_id, now, r),
        state.wf() ==> (r matches Ok(resp) ==> resp.store_id == store_id),
{
    if !state.stores.contains_key(&store_id) {
        let r = Err("门店不存在".to_string());
        assert(state.answers_status_at(store_id, DateTime { date: Date { days: 1 }, time: TimeOfDay { secs: 0, frac: 0 } }, r));
        return r;
    }
    let now = chrono_local_now();
    let r = business_status_at(state, store_id, now);
    assert(state.answers_status_at(store_id, now, r));
    r
}

/// The time `hour` o'clock.
pub open spec fn oclock(hour: int) -> TimeOfDay {
    TimeOfDay { secs: (hour * 3600) as u32, frac: 0 }
}

/// One day of the demo store's week, open from `open` to `close` o'clock.
pub open spec fn demo_day(id: u128, store_id: u128, weekday: Weekday, open: int, close: int) -> BusinessHours {
    BusinessHours {
        id,
        store_id,
        weekday,
        open_time: oclock(open),
        close_time: oclock(close),
        is_closed: false,
    }
}

/// The demo store's week: Monday to Thursday 9 to 21 o'clock, Friday 9 to
/// 22, Saturday 10 to 22, Sunday 10 to 20; the entries take the ids `ids`
/// in that order.
pub open spec fn demo_week(store_id: u128, ids: Seq<u128>) -> Seq<BusinessHours> {
    seq![
        demo_day(ids[0], store_id, Weekday::Mon, 9, 21),
        demo_day(ids[1], store_id, Weekday::Tue, 9, 21),
        demo_day(ids[2], store_id, Weekday::Wed, 9, 21),
        demo_day(ids[3], store_id, Weekday::Thu, 9, 21),
        demo_day(ids[4], store_id, Weekday::Fri, 9, 22),
        demo_day(ids[5], store_id, Weekday::Sat, 10, 22),
        demo_day(ids[6], store_id, Weekday::Sun, 10, 20),
    ]
}

/// The demo store's name.
pub open spec fn demo_store_name() -> Seq<char> {
    "示例门店"@
}

/// The demo store's address.
pub open spec fn demo_store_address() -> Seq<char> {
    "示例地址 123 号"@
}

proof fn lemma_demo_week_shape(store_id: u128, ids: Seq<u128>)
    requires
        ids.len() == 7,
    ensures
        one_entry_per_day(demo_week(store_id, ids)),
        all_of_store(demo_week(store_id, ids), store_id),
{
    let d = demo_week(store_id, ids);
    reveal_with_fuel(with_weekday, 8);
    assert(d.drop_last().drop_last().drop_last().drop_last().drop_last().drop_last().drop_last()
        =~= Seq::<BusinessHours>::empty());
    assert forall|w: Weekday| #[trigger] with_weekday(d, w).len() <= 1 by {
        assert(d.drop_last() =~= seq![d[0], d[1], d[2], d[3], d[4], d[5]]);
        assert(d.drop_last().drop_last() =~= seq![d[0], d[1], d[2], d[3], d[4]]);
        assert(d.drop_last().drop_last().drop_last() =~= seq![d[0], d[1], d[2], d[3]]);
        assert(d.drop_last().drop_last().drop_last().drop_last() =~= seq![d[0], d[1], d[2]]);
        assert(d.drop_last().drop_last().drop_last().drop_last().drop_last() =~= seq![d[0], d[1]]);
        assert(d.drop_last().drop_last().drop_last().drop_last().drop_last().drop_last()
            =~= seq![d[0]]);
    }
}

impl AppState {
    /// Adds the demo store `store_id`, created at `created_at`, with its
    /// demo week (see `demo_week`) under the ids `hour_ids`; a store with
    /// that id is replaced, with its hours.
    pub fn seed_demo_data_with(&mut self, store_id: u128, created_at: DateTime, hour_ids: &Vec<u128>)
        requires
            old(self).wf(),
            hour_ids.len() == 7,
        ensures
            final(self).wf(),
            final(self).stores_view() == old(self).stores_view().insert(
                store_id,
                StoreView {
                    id: store_id,
                    name: demo_store_name(),
                    address: demo_store_address(),
                    created_at,
                },
            ),
            final(self).hours_view() == old(self).hours_view().insert(
                store_id,
                demo_week(store_id, hour_ids@),
            ),
    {
        let store = Store {
            id: store_id,
            name: "示例门店".to_string(),
            address: "示例地址 123 号".to_string(),
            created_at,
        };
        let nine = TimeOfDay::from_hms(9, 0, 0).unwrap();
        let ten = TimeOfDay::from_hms(10, 0, 0).unwrap();
        let twenty = TimeOfDay::from_hms(20, 0, 0).unwrap();
        let twenty_one = TimeOfDay::from_hms(21, 0, 0).unwrap();
        let twenty_two = TimeOfDay::from_hms(22, 0, 0).unwrap();
        let days: Vec<(Weekday, TimeOfDay, TimeOfDay, bool)> = vec![
            (Weekday::Mon, nine, twenty_one, false),
            (Weekday::Tue, nine, twenty_one, false),
            (Weekday::Wed, nine, twenty_one, false),
            (Weekday::Thu, nine, twenty_one, false),
            (Weekday::Fri, nine, twenty_two, false),
            (Weekday::Sat, ten, twenty_two, false),
            (Weekday::Sun, ten, twenty, false),
        ];
        let mut hours: Vec<BusinessHours> = Vec::new();
        for i in 0..7usize
            invariant
                days@ == seq![
                    (Weekday::Mon, oclock(9), oclock(21), false),
                    (Weekday::Tue, oclock(9), oclock(21), false),
                    (Weekday::Wed, oclock(9), oclock(21), false),
                    (Weekday::Thu, oclock(9), oclock(21), false),
                    (Weekday::Fri, oclock(9), oclock(22), false),
                    (Weekday::Sat, oclock(10), oclock(22), false),
                    (Weekday::Sun, oclock(10), oclock(20), false),
                ],
                hour_ids.len() == 7,
                hours@ =~= demo_week(store_id, hour_ids@).take(i as int),
        {
            let (weekday, open, close, is_closed) = days[i];
            hours.push(
                BusinessHours {
                    id: hour_ids[i],
                    store_id,
                    weekday,
                    open_time: open,
                    close_time: close,
                    is_closed,
                },
            );
        }
        assert(demo_week(store_id, hour_ids@).take(7) =~= demo_week(store_id, hour_ids@));
        assert(hours@ == demo_week(store_id, hour_ids@));
        proof {
            lemma_demo_week_shape(store_id, hour_ids@);
        }
        let ghost store_view = store@;
        self.stores.insert(store_id, store);
        self.business_hours.insert(store_id, hours);
        assert(self.stores_view() =~= old(self).stores_view().insert(store_id, store_view));
        assert(self.hours_view() =~= old(self).hours_view().insert(
            store_id,
            demo_week(store_id, hour_ids@),
        ));
        assert forall|k: u128| #[trigger] self.hours_view().contains_key(k) implies one_entry_per_day(
            self.hours_view()[k],
        ) && all_of_store(self.hours_view()[k], k) by {
            if k != store_id {
                assert(old(self).hours_view().contains_key(k));
            }
        }
    }

    /// Adds a demo store with a fresh random id, created now by the local
    /// clock, with its demo week (see `seed_demo_data_with`) under fresh
    /// random ids; returns the store's id.
    pub fn seed_demo_data(&mut self) -> (store_id: u128)
        requires
            old(self).wf(),
        ensures
            final(self).wf(),
            is_random_uuid(store_id),
            exists|created_at: DateTime, hour_ids: Seq<u128>|
                {
                    &&& created_at.wf()
                    &&& hour_ids.len() == 7
                    &&& final(self).stores_view() == old(self).stores_view().insert(
                        store_id,
                        StoreView {
                            id: store_id,
                            name: demo_store_name(),
                            address: demo_store_address(),
                            created_at,
                        },
                    )
                    &&& #[trigger] final(self).hours_view() == old(self).hours_view().insert(
                        store_id,
                        demo_week(store_id, hour_ids),
                    )
                },
    {
        let store_id = new_uuid();
        let created_at = chrono_local_now();
        let mut hour_ids: Vec<u128> = Vec::new();
        for i in 0..7usize
            invariant
                hour_ids.len() == i,
        {
            hour_ids.push(new_uuid());
        }
        self.seed_demo_data_with(store_id, created_at, &hour_ids);
        store_id
    }
}

proof fn lemma_after_items_prefix(
    hours: Seq<BusinessHours>,
    store_id: u128,
    a: Seq<BusinessHoursItem>,
    ia: Seq<u128>,
    b: Seq<BusinessHoursItem>,
    ib: Seq<u128>,
    n: nat,
)
    requires
        ia.len() == a.len(),
        n <= a.len(),
    ensures
        after_items(hours, store_id, a + b, ia + ib, n) == after_items(hours, store_id, a, ia, n),
    decreases n,
{
    if n > 0 {
        lemma_after_items_prefix(hours, store_id, a, ia, b, ib, (n - 1) as nat);
        assert((a + b)[n - 1] == a[n - 1]);
        assert((ia + ib)[n - 1] == ia[n - 1]);
    }
}

proof fn lemma_after_items_suffix(
    hours: Seq<BusinessHours>,
    store_id: u128,
    a: Seq<BusinessHoursItem>,
    ia: Seq<u128>,
    b: Seq<BusinessHoursItem>,
    ib: Seq<u128>,
    k: nat,
)
    requires
        ia.len() == a.len(),
        ib.len() == b.len(),
        k <= b.len(),
    ensures
        after_items(hours, store_id, a + b, ia + ib, a.len() + k) == after_items(
            after_items(hours, store_id, a, ia, a.len()),
            store_id,
            b,
            ib,
            k,
        ),
    decreases k,
{
    if k == 0 {
        lemma_after_items_prefix(hours, store_id, a, ia, b, ib, a.len());
    } else {
        lemma_after_items_suffix(hours, store_id, a, ia, b, ib, (k - 1) as nat);
        assert((a + b)[a.len() + k - 1] == b[k - 1]);
        assert((ia + ib)[a.len() + k - 1] == ib[k - 1]);
    }
}

/// Setting the hours of the items of `a` and then those of `b` is setting
/// those of `a` followed by `b` in one batch.
pub proof fn lemma_batch_in_two_parts(
    hours: Seq<BusinessHours>,
    store_id: u128,
    a: Seq<BusinessHoursItem>,
    ia: Seq<u128>,
    b: Seq<BusinessHoursItem>,
    ib: Seq<u128>,
)
    requires
        ia.len() == a.len(),
        ib.len() == b.len(),
    ensures
        after_items(hours, store_id, a + b, ia + ib, (a.len() + b.len()) as nat) == after_items(
            after_items(hours, store_id, a, ia, a.len()),
            store_id,
            b,
            ib,
            b.len(),
        ),
{
    lemma_after_items_suffix(hours, store_id, a, ia, b, ib, b.len());
}

/// The position of the last of the first `n` items for weekday `w`; -1 where
/// there is none.
pub open spec fn last_item_for(items: Seq<BusinessHoursItem>, w: Weekday, n: nat) -> int
    decreases n,
{
    if n == 0 {
        -1
    } else if items[n - 1].weekday == w {
        n - 1
    } else {
        last_item_for(items, w, (n - 1) as nat)
    }
}

proof fn lemma_last_item_wins_upto(
    hours: Seq<BusinessHours>,
    store_id: u128,
    items: Seq<BusinessHoursItem>,
    ids: Seq<u128>,
    w: Weekday,
    n: nat,
)
    requires
        ids.len() == items.len(),
        n <= items.len(),
    ensures
        -1 <= last_item_for(items, w, n) < n,
        with_weekday(after_items(hours, store_id, items, ids, n), w) == (if last_item_for(
            items,
            w,
            n,
        ) >= 0 {
            seq![
                entry_of_item(
                    store_id,
                    items[last_item_for(items, w, n)],
                    ids[last_item_for(items, w, n)],
                ),
            ]
        } else {
            with_weekday(hours, w)
        }),
    decreases n,
{
    if n > 0 {
        let m = (n - 1) as nat;
        lemma_last_item_wins_upto(hours, store_id, items, ids, w, m);
        lemma_set_day_then_read(
            after_items(hours, store_id, items, ids, m),
            entry_of_item(store_id, items[m as int], ids[m as int]),
            w,
        );
    }
}

/// After a batch, each weekday has exactly the entry of the last item given
/// for it, and a weekday that no item names keeps its entries.
pub proof fn lemma_batch_last_item_wins(
    hours: Seq<BusinessHours>,
    store_id: u128,
    items: Seq<BusinessHoursItem>,
    ids: Seq<u128>,
    w: Weekday,
)
    requires
        ids.len() == items.len(),
    ensures
        with_weekday(after_items(hours, store_id, items, ids, items.len()), w) == (if last_item_for(
            items,
            w,
            items.len(),
        ) >= 0 {
            seq![
                entry_of_item(
                    store_id,
                    items[last_item_for(items, w, items.len())],
                    ids[last_item_for(items, w, items.len())],
                ),
            ]
        } else {
            with_weekday(hours, w)
        }),
{
    lemma_last_item_wins_upto(hours, store_id, items, ids, w, items.len());
}

/// Creating a store makes it readable under its id with what it was
/// created with, with no hours, and leaves the other stores as they were.
pub proof fn lemma_created_store_reads_back(before: AppState, after: AppState, s: StoreView, other: u128)
    requires
        after.stores_view() == before.stores_view().insert(s.id, s),
        after.hours_view() == before.hours_view().insert(s.id, Seq::<BusinessHours>::empty()),
    ensures
        after.stores_view().contains_key(s.id),
        after.stores_view()[s.id] == s,
        after.hours_of(s.id) == Seq::<BusinessHours>::empty(),
        other != s.id ==> (after.stores_view().contains_key(other) == before.stores_view().contains_key(other)
            && after.stores_view()[other] == before.stores_view()[other]
            && after.hours_of(other) == before.hours_of(other)),
{
}

/// The request to set one weekday's hours that an item of a request for
/// several makes, for store `store_id`.
pub open spec fn request_of_item(store_id: u128, item: BusinessHoursItem) -> CreateBusinessHoursRequest {
    CreateBusinessHoursRequest {
        store_id,
        weekday: item.weekday,
        open_time: item.open_time,
        close_time: item.close_time,
        is_closed: item.is_closed,
    }
}

/// The hours of all stores after the first `n` items, each as a request of
/// its own (see `add_business_hours_with_id`), the `i`-th with id `ids[i]`.
pub open spec fn after_adds(
    m: Map<u128, Seq<BusinessHours>>,
    store_id: u128,
    items: Seq<BusinessHoursItem>,
    ids: Seq<u128>,
    n: nat,
) -> Map<u128, Seq<BusinessHours>>
    decreases n,
{
    if n == 0 {
        m
    } else {
        after_add(
            after_adds(m, store_id, items, ids, (n - 1) as nat),
            request_of_item(store_id, items[n - 1]),
            ids[n - 1],
        )
    }
}

proof fn lemma_adds_upto(
    m: Map<u128, Seq<BusinessHours>>,
    store_id: u128,
    items: Seq<BusinessHoursItem>,
    ids: Seq<u128>,
    n: nat,
)
    requires
        m.contains_key(store_id) || n > 0,
        n <= items.len(),
        ids.len() == items.len(),
    ensures
        after_adds(m, store_id, items, ids, n) == m.insert(
            store_id,
            after_items(hours_in(m, store_id), store_id, items, ids, n),
        ),
    decreases n,
{
    if n == 0 {
        assert(m.insert(store_id, hours_in(m, store_id)) =~= m);
    } else {
        let k = (n - 1) as nat;
        if k > 0 {
            lemma_adds_upto(m, store_id, items, ids, k);
        } else {
            assert(after_adds(m, store_id, items, ids, 0) == m);
            assert(after_items(hours_in(m, store_id), store_id, items, ids, 0) == hours_in(m, store_id));
        }
        let mk = after_adds(m, store_id, items, ids, k);
        if k > 0 {
            assert(hours_in(mk, store_id) == after_items(hours_in(m, store_id), store_id, items, ids, k));
        }
        assert(entry_of_request(request_of_item(store_id, items[k as int]), ids[k as int])
            == entry_of_item(store_id, items[k as int], ids[k as int]));
        assert(after_adds(m, store_id, items, ids, n) =~= m.insert(
            store_id,
            after_items(hours_in(m, store_id), store_id, items, ids, n),
        ));
    }
}

/// A batch for a store (see `batch_add_business_hours_with_ids`) leaves the
/// hours of all stores as its items would, sent one after the other as
/// requests of their own with the same ids (see
/// `add_business_hours_with_id`), where the store has hours kept or the
/// batch has an item.
pub proof fn lemma_batch_is_sequence_of_adds(
    m: Map<u128, Seq<BusinessHours>>,
    store_id: u128,
    items: Seq<BusinessHoursItem>,
    ids: Seq<u128>,
)
    requires
        m.contains_key(store_id) || items.len() > 0,
        ids.len() == items.len(),
    ensures
        after_adds(m, store_id, items, ids, items.len()) == m.insert(
            store_id,
            after_items(hours_in(m, store_id), store_id, items, ids, items.len()),
        ),
{
    lemma_adds_upto(m, store_id, items, ids, items.len());
}

/// Sending the same request twice: the second answer differs from the first
/// only in its id, and the hours are as after the first, with the entry it
/// made, the last of its store, given the second id.
pub proof fn lemma_repeated_request(
    m: Map<u128, Seq<BusinessHours>>,
    req: CreateBusinessHoursRequest,
    first_id: u128,
    second_id: u128,
)
    ensures
        entry_of_request(req, second_id) == (BusinessHours {
            id: second_id,
            ..entry_of_request(req, first_id)
        }),
        after_add(after_add(m, req, first_id), req, second_id) == after_add(m, req, first_id).insert(
            req.store_id,
            after_add(m, req, first_id)[req.store_id].update(
                after_add(m, req, first_id)[req.store_id].len() - 1,
                entry_of_request(req, second_id),
            ),
        ),
{
    let h = hours_in(m, req.store_id);
    lemma_set_day_twice(h, entry_of_request(req, first_id), entry_of_request(req, second_id));
    assert(hours_in(after_add(m, req, first_id), req.store_id) == with_day_replaced(
        h,
        entry_of_request(req, first_id),
    ));
    assert(after_add(after_add(m, req, first_id), req, second_id) =~= after_add(m, req, first_id).insert(
        req.store_id,
        after_add(m, req, first_id)[req.store_id].update(
            after_add(m, req, first_id)[req.store_id].len() - 1,
            entry_of_request(req, second_id),
        ),
    ));
}

/// Setting one weekday's hours by a request, then listing the week: the
/// new entry is listed exactly once, and no other entry for its weekday.
pub proof fn lemma_added_hours_listed_once(
    m: Map<u128, Seq<BusinessHours>>,
    req: CreateBusinessHoursRequest,
    id: u128,
)
    ensures
        listed_once(
            weekly_listing(hours_in(after_add(m, req, id), req.store_id)),
            entry_of_request(req, id),
        ),
{
    lemma_set_day_then_listed(hours_in(m, req.store_id), entry_of_request(req, id));
}

} // verus!
