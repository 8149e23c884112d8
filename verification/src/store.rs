//! The store: both tables, the service operations over them, and the laws
//! those operations obey.
//!
//! The store keeps the `applications` and `application_statuses` tables as
//! append-only rows with positional surrogate keys (row `i` has id `i + 1`)
//! and a monotone clock: a row's creation time is the later of the supplied
//! time and every time already recorded, so rows are ordered by creation time
//! in storage order. Every application is created atomically with its initial
//! status row, so each has a non-empty history at all times.

use vstd::prelude::*;

use crate::domain::Status;
use crate::errors::ServiceError;
use crate::model::{AppModel, Application, ApplicationStatus, StatusModel};
use crate::payloads::{
    assemble, ApplicationFilter, ApplicationRequest, ApplicationStatusRequest,
    ApplicationStatusResponse, ApplicationsResponse, FilterModel, RequestModel, ResponseModel,
    StatusRequestModel,
};
use crate::seq_facts::{lemma_filter_empty, lemma_filter_in, lemma_filter_singleton};
use crate::text::contains_ci;

verus! {

/// The largest number of rows either table accepts; an insert into a full
/// table fails with a storage error.
pub const MAX_ROWS: usize = 0x4000_0000;

/// The page size used when the list query names none.
pub const DEFAULT_PAGE_SIZE: i64 = 10;

/// The mathematical model of the store: both tables and the clock.
#[verifier::ext_equal]
pub struct StoreModel {
    pub apps: Seq<AppModel>,
    pub statuses: Seq<StatusModel>,
    pub clock: int,
}

/// Some status row belongs to the application with this id.
pub open spec fn has_status_row(m: StoreModel, id: int) -> bool {
    exists|j: int| 0 <= j < m.statuses.len() && (#[trigger] m.statuses[j]).application_id == id
}

/// Well-formedness of the store model:
/// - both tables are within capacity;
/// - ids are positional (row `i` has id `i + 1`), hence unique and increasing;
/// - every status row references an existing application;
/// - every application has at least one status row;
/// - creation times are nondecreasing in storage order and bounded by the
///   clock.
pub open spec fn store_wf(m: StoreModel) -> bool {
    &&& m.apps.len() <= MAX_ROWS as int
    &&& m.statuses.len() <= MAX_ROWS as int
    &&& forall|i: int| 0 <= i < m.apps.len() ==> (#[trigger] m.apps[i]).id == i + 1
    &&& forall|i: int| 0 <= i < m.statuses.len() ==> (#[trigger] m.statuses[i]).id == i + 1
    &&& forall|i: int|
        0 <= i < m.statuses.len() ==> 1 <= (#[trigger] m.statuses[i]).application_id
            <= m.apps.len()
    &&& forall|id: int| 1 <= id <= m.apps.len() ==> #[trigger] has_status_row(m, id)
    &&& forall|i: int, j: int|
        0 <= i <= j < m.apps.len() ==> (#[trigger] m.apps[i]).created_at
            <= (#[trigger] m.apps[j]).created_at
    &&& forall|i: int, j: int|
        0 <= i <= j < m.statuses.len() ==> (#[trigger] m.statuses[i]).created_at
            <= (#[trigger] m.statuses[j]).created_at
    &&& forall|i: int| 0 <= i < m.apps.len() ==> (#[trigger] m.apps[i]).created_at <= m.clock
    &&& forall|i: int|
        0 <= i < m.statuses.len() ==> (#[trigger] m.statuses[i]).created_at <= m.clock
}

/// An application's status history: its status rows in storage order, which
/// is ascending creation time.
pub open spec fn history_of(m: StoreModel, id: int) -> Seq<StatusModel> {
    m.statuses.filter(|s: StatusModel| s.application_id == id)
}

/// The current status of an application: the status of its most recently
/// created history row.
pub open spec fn current_status(m: StoreModel, id: int) -> Status
    recommends
        history_of(m, id).len() > 0,
{
    history_of(m, id).last().status_type
}

/// The application with this id exists and belongs to this owner. Reads fail
/// closed on both conditions at once, so absence and foreign ownership are
/// indistinguishable to a caller.
pub open spec fn owned_app_exists(m: StoreModel, id: int, owner: int) -> bool {
    1 <= id <= m.apps.len() && m.apps[id - 1].created_by == owner
}

/// The wire response for the application with this id: its fields, its full
/// history, and the derived current status.
pub open spec fn respond_model(m: StoreModel, a: AppModel) -> ResponseModel {
    assemble(a, history_of(m, a.id))
}

/// Whether an application satisfies the list query's filter for this caller:
/// it is owned by the caller; the search text, if given, occurs
/// case-insensitively in the company or the position; the status, if given,
/// equals the application's current status; and the creation time lies within
/// the given inclusive bounds.
pub open spec fn app_matches(m: StoreModel, f: FilterModel, owner: int, a: AppModel) -> bool {
    &&& a.created_by == owner
    &&& match f.search {
        Some(q) => contains_ci(a.company, q) || contains_ci(a.position, q),
        None => true,
    }
    &&& match f.status {
        Some(st) => current_status(m, a.id) == st,
        None => true,
    }
    &&& match f.from {
        Some(t) => a.created_at >= t,
        None => true,
    }
    &&& match f.to {
        Some(t) => a.created_at <= t,
        None => true,
    }
}

/// The full result of the list query before paging: the matching
/// applications, newest creation time first, ties broken by id descending.
/// Since storage order is ascending in (creation time, id), that is exactly
/// the reverse of the filtered table.
pub open spec fn listing(m: StoreModel, f: FilterModel, owner: int) -> Seq<AppModel> {
    m.apps.filter(|a: AppModel| app_matches(m, f, owner, a)).reverse()
}

/// The 1-based page index requested, with anything below 1 treated as the
/// first page.
pub open spec fn page_index(f: FilterModel) -> int {
    match f.page {
        Some(p) => if p >= 1 {
            p
        } else {
            1
        },
        None => 1,
    }
}

/// The page size requested, with anything below 1 replaced by the default.
pub open spec fn page_size(f: FilterModel) -> int {
    match f.size {
        Some(s) => if s >= 1 {
            s
        } else {
            DEFAULT_PAGE_SIZE as int
        },
        None => DEFAULT_PAGE_SIZE as int,
    }
}

/// The first index of page `p` of size `s` in a result of length `len`.
pub open spec fn page_start(len: int, p: int, s: int) -> int
    recommends
        p >= 1,
        s >= 1,
        len >= 0,
{
    if (p - 1) * s > len {
        len
    } else {
        (p - 1) * s
    }
}

/// One past the last index of page `p` of size `s` in a result of length
/// `len`.
pub open spec fn page_end(len: int, p: int, s: int) -> int
    recommends
        p >= 1,
        s >= 1,
        len >= 0,
{
    if page_start(len, p, s) + s > len {
        len
    } else {
        page_start(len, p, s) + s
    }
}

/// Page `p` of size `s` of a result sequence.
pub open spec fn page_slice(l: Seq<AppModel>, p: int, s: int) -> Seq<AppModel>
    recommends
        p >= 1,
        s >= 1,
{
    l.subrange(page_start(l.len() as int, p, s), page_end(l.len() as int, p, s))
}

/// The page of the result that the filter's paging options select.
pub open spec fn page_of(l: Seq<AppModel>, f: FilterModel) -> Seq<AppModel> {
    page_slice(l, page_index(f), page_size(f))
}

/// The creation time a row inserted now receives: the supplied time, clamped
/// so that recorded times never go backwards.
pub open spec fn clamp_time(m: StoreModel, now: int) -> int {
    if now >= m.clock {
        now
    } else {
        m.clock
    }
}

/// Both tables have room for one more row.
pub open spec fn can_insert(m: StoreModel) -> bool {
    m.apps.len() < MAX_ROWS as int && m.statuses.len() < MAX_ROWS as int
}

/// The application row a creation request inserts.
pub open spec fn created_app(m: StoreModel, rq: RequestModel, owner: int, now: int) -> AppModel {
    AppModel {
        id: m.apps.len() as int + 1,
        company: rq.company,
        position: rq.position,
        website: rq.website,
        application_type: rq.application_type,
        created_at: clamp_time(m, now),
        created_by: owner,
    }
}

/// The initial status row created atomically with a new application: the
/// default status `Applied`, no subtype, no notes.
pub open spec fn initial_status(m: StoreModel, owner: int, now: int) -> StatusModel {
    StatusModel {
        id: m.statuses.len() as int + 1,
        application_id: m.apps.len() as int + 1,
        status_type: Status::Applied,
        test_type: None,
        interview_type: None,
        notes: None,
        created_at: clamp_time(m, now),
        created_by: owner,
    }
}

/// The store after a successful creation: both rows appended, the clock
/// advanced.
pub open spec fn after_create(m: StoreModel, rq: RequestModel, owner: int, now: int) -> StoreModel {
    StoreModel {
        apps: m.apps.push(created_app(m, rq, owner, now)),
        statuses: m.statuses.push(initial_status(m, owner, now)),
        clock: clamp_time(m, now),
    }
}

/// The history row a status-change request appends.
pub open spec fn appended_status(
    m: StoreModel,
    rq: StatusRequestModel,
    owner: int,
    now: int,
) -> StatusModel {
    StatusModel {
        id: m.statuses.len() as int + 1,
        application_id: rq.application_id,
        status_type: rq.status_type,
        test_type: rq.test_type,
        interview_type: rq.interview_type,
        notes: rq.notes,
        created_at: clamp_time(m, now),
        created_by: owner,
    }
}

/// The store after a successful status change: one history row appended, the
/// clock advanced, the applications untouched.
pub open spec fn after_status_change(
    m: StoreModel,
    rq: StatusRequestModel,
    owner: int,
    now: int,
) -> StoreModel {
    StoreModel {
        apps: m.apps,
        statuses: m.statuses.push(appended_status(m, rq, owner, now)),
        clock: clamp_time(m, now),
    }
}

/// The store. All access goes through the service operations, which preserve
/// `wf`.
pub struct Store {
    apps: Vec<Application>,
    statuses: Vec<ApplicationStatus>,
    clock: i64,
}

impl View for Store {
    type V = StoreModel;

    closed spec fn view(&self) -> StoreModel {
        StoreModel {
            apps: self.apps@.map_values(|a: Application| a@),
            statuses: self.statuses@.map_values(|s: ApplicationStatus| s@),
            clock: self.clock as int,
        }
    }
}

/// Every created application has at least one history row.
pub proof fn lemma_history_nonempty(m: StoreModel, id: int)
    requires
        store_wf(m),
        1 <= id <= m.apps.len(),
    ensures
        history_of(m, id).len() >= 1,
{
    assert(has_status_row(m, id));
    let j = choose|j: int| 0 <= j < m.statuses.len() && (#[trigger] m.statuses[j]).application_id
        == id;
    let p = |s: StatusModel| s.application_id == id;
    m.statuses.lemma_filter_contains(p, j);
    assert(m.statuses.filter(p).contains(m.statuses[j]));
}

impl Store {
    /// Well-formedness of the store.
    pub open spec fn wf(&self) -> bool {
        store_wf(self@)
    }

    /// An empty store: no rows, clock at zero.
    pub fn new() -> (s: Store)
        ensures
            s.wf(),
            s@.apps == Seq::<AppModel>::empty(),
            s@.statuses == Seq::<StatusModel>::empty(),
            s@.clock == 0,
    {
        let s = Store { apps: Vec::new(), statuses: Vec::new(), clock: 0 };
        assert(s@.apps =~= Seq::<AppModel>::empty());
        assert(s@.statuses =~= Seq::<StatusModel>::empty());
        s
    }

    /// Validates the request, then atomically inserts the application and its
    /// initial `Applied` status row; on any failure the store is unchanged.
    /// Succeeds exactly on well-formed requests while the store has room.
    pub fn create_application(
        &mut self,
        req: &ApplicationRequest,
        owner: i64,
        now: i64,
    ) -> (r: Result<ApplicationsResponse, ServiceError>)
        requires
            old(self).wf(),
        ensures
            final(self).wf(),
            r is Ok <==> crate::payloads::request_valid(req@) && can_insert(old(self)@),
            !crate::payloads::request_valid(req@) ==> (r matches Err(e) && e is Validation)
                && final(self)@ == old(self)@,
            req@.company.len() == 0 ==> (r matches Err(ServiceError::Validation(msg))
                && msg@ == "Company name cannot be empty"@),
            req@.company.len() > 0 && req@.position.len() == 0 ==> (r matches Err(
                ServiceError::Validation(msg),
            ) && msg@ == "Position cannot be empty"@),
            crate::payloads::request_valid(req@) && !can_insert(old(self)@) ==> (r matches Err(e)
                && e is Storage) && final(self)@ == old(self)@,
            r is Ok ==> final(self)@ == after_create(old(self)@, req@, owner as int, now as int),
            r matches Ok(resp) ==> resp@ == assemble(
                created_app(old(self)@, req@, owner as int, now as int),
                seq![initial_status(old(self)@, owner as int, now as int)],
            ),
    {
        match req.validate() {
            Err(e) => {
                return Err(e);
            },
            Ok(()) => {},
        }
        if self.apps.len() >= MAX_ROWS || self.statuses.len() >= MAX_ROWS {
            return Err(ServiceError::Storage);
        }
        let ghost m = self@;
        let t = if now >= self.clock {
            now
        } else {
            self.clock
        };
        let app_id = (self.apps.len() as i64) + 1;
        let status_id = (self.statuses.len() as i64) + 1;
        let app = Application {
            id: app_id,
            company: req.company.clone(),
            position: req.position.clone(),
            website: crate::model::copy_opt_text(&req.website),
            application_type: req.application_type,
            created_at: t,
            created_by: owner,
        };
        let st = ApplicationStatus {
            id: status_id,
            application_id: app_id,
            status_type: Status::Applied,
            test_type: None,
            interview_type: None,
            notes: None,
            created_at: t,
            created_by: owner,
        };
        assert(app@ =~= created_app(m, req@, owner as int, now as int));
        assert(st@ =~= initial_status(m, owner as int, now as int));
        let hist = vec![st.duplicate()];
        let resp = ApplicationsResponse::from_application_and_status(&app, &hist);
        proof {
            assert(hist@.map_values(|s: ApplicationStatus| s@) =~= seq![
                initial_status(m, owner as int, now as int),
            ]);
        }
        self.apps.push(app);
        self.statuses.push(st);
        self.clock = t;
        proof {
            let m2 = after_create(m, req@, owner as int, now as int);
            assert(self@.apps =~= m2.apps);
            assert(self@.statuses =~= m2.statuses);
            assert(self@ =~= m2);
            lemma_after_create_wf(m, req@, owner as int, now as int);
        }
        Ok(resp)
    }
    /// Copies an application's status history, in storage order, which is
    /// ascending creation time.
    fn history_vec(&self, id: i64) -> (r: Vec<ApplicationStatus>)
        requires
            self.wf(),
        ensures
            r@.map_values(|s: ApplicationStatus| s@) == history_of(self@, id as int),
    {
        let ghost m = self@;
        let ghost p = |s: StatusModel| s.application_id == id as int;
        let mut out: Vec<ApplicationStatus> = Vec::new();
        let n = self.statuses.len();
        let mut i: usize = 0;
        while i < n
            invariant
                self.wf(),
                m == self@,
                n == self.statuses@.len(),
                i <= n,
                p == (|s: StatusModel| s.application_id == id as int),
                out@.map_values(|s: ApplicationStatus| s@) =~= m.statuses.subrange(
                    0,
                    i as int,
                ).filter(p),
            decreases n - i,
        {
            proof {
                let pre = m.statuses.subrange(0, i as int);
                let sng = seq![m.statuses[i as int]];
                assert(m.statuses.subrange(0, i + 1) =~= pre + sng);
                Seq::<StatusModel>::filter_distributes_over_add(pre, sng, p);
                lemma_filter_singleton(m.statuses[i as int], p);
            }
            if self.statuses[i].application_id == id {
                out.push(self.statuses[i].duplicate());
                assert(out@.map_values(|s: ApplicationStatus| s@) =~= m.statuses.subrange(
                    0,
                    i + 1,
                ).filter(p));
            }
            i += 1;
        }
        assert(m.statuses.subrange(0, n as int) =~= m.statuses);
        out
    }

    /// Looks up an application's current status: the status of its last
    /// history row, found by scanning the table backwards.
    fn current_status_exec(&self, id: i64) -> (r: Status)
        requires
            self.wf(),
            1 <= id as int <= self@.apps.len(),
        ensures
            r == current_status(self@, id as int),
    {
        let ghost m = self@;
        let ghost p = |s: StatusModel| s.application_id == id as int;
        let mut j: usize = self.statuses.len();
        while j > 0
            invariant
                self.wf(),
                m == self@,
                j <= m.statuses.len(),
                p == (|s: StatusModel| s.application_id == id as int),
                forall|k: int|
                    j <= k < m.statuses.len() ==> (#[trigger] m.statuses[k]).application_id
                        != id as int,
            decreases j,
        {
            j -= 1;
            if self.statuses[j].application_id == id {
                proof {
                    let ns = m.statuses.len() as int;
                    let pre = m.statuses.subrange(0, j as int);
                    let sng = seq![m.statuses[j as int]];
                    let post = m.statuses.subrange(j + 1, ns);
                    assert(m.statuses =~= (pre + sng) + post);
                    Seq::<StatusModel>::filter_distributes_over_add(pre + sng, post, p);
                    Seq::<StatusModel>::filter_distributes_over_add(pre, sng, p);
                    lemma_filter_singleton(m.statuses[j as int], p);
                    assert forall|k: int| 0 <= k < post.len() implies !p(#[trigger] post[k]) by {
                        assert(post[k] == m.statuses[j + 1 + k]);
                    }
                    lemma_filter_empty(post, p);
                    assert(history_of(m, id as int) =~= pre.filter(p) + sng);
                    assert(history_of(m, id as int).last() == m.statuses[j as int]);
                }
                return self.statuses[j].status_type;
            }
        }
        proof {
            lemma_history_nonempty(m, id as int);
            assert forall|k: int| 0 <= k < m.statuses.len() implies !p(
                #[trigger] m.statuses[k],
            ) by {}
            lemma_filter_empty(m.statuses, p);
            assert(false);
        }
        vstd::pervasive::unreached()
    }

    /// Fetches an application with its full history, scoped to the caller:
    /// succeeds exactly when the application exists and is owned by the
    /// caller, and otherwise reports `NotFound`, whether the record is absent
    /// or belongs to someone else. The response's history is never empty and
    /// its `status` is the status of the most recently created history row.
    pub fn get_application_with_history(&self, id: i64, owner: i64) -> (r: Result<
        ApplicationsResponse,
        ServiceError,
    >)
        requires
            self.wf(),
        ensures
            r is Ok <==> owned_app_exists(self@, id as int, owner as int),
            !owned_app_exists(self@, id as int, owner as int) ==> (r matches Err(e)
                && e is NotFound),
            r matches Ok(resp) ==> resp@ == respond_model(self@, self@.apps[id - 1])
                && resp@.status_history.len() >= 1 && resp@.status == current_status(
                self@,
                id as int,
            ),
    {
        proof {
            assert(self@.apps.len() <= MAX_ROWS as int);
        }
        if id < 1 || id > self.apps.len() as i64 {
            return Err(ServiceError::NotFound);
        }
        let idx = (id - 1) as usize;
        if self.apps[idx].created_by != owner {
            return Err(ServiceError::NotFound);
        }
        let hist = self.history_vec(id);
        proof {
            lemma_history_nonempty(self@, id as int);
        }
        let resp = ApplicationsResponse::from_application_and_status(&self.apps[idx], &hist);
        proof {
            assert(self@.apps[id - 1] == self.apps@[id - 1]@);
            assert(self@.apps[id - 1].id == id as int);
        }
        Ok(resp)
    }

    /// Verifies that the referenced application exists and is owned by the
    /// caller — reporting `NotFound` otherwise, whether the record is absent
    /// or belongs to someone else — then appends one history row; on any
    /// failure the store is unchanged. Succeeds exactly when the application
    /// is owned by the caller and the table has room.
    pub fn record_status_change(
        &mut self,
        req: &ApplicationStatusRequest,
        owner: i64,
        now: i64,
    ) -> (r: Result<ApplicationStatusResponse, ServiceError>)
        requires
            old(self).wf(),
        ensures
            final(self).wf(),
            r is Ok <==> owned_app_exists(old(self)@, req@.application_id, owner as int)
                && old(self)@.statuses.len() < MAX_ROWS as int,
            !owned_app_exists(old(self)@, req@.application_id, owner as int) ==> (r matches Err(e)
                && e is NotFound) && final(self)@ == old(self)@,
            owned_app_exists(old(self)@, req@.application_id, owner as int)
                && old(self)@.statuses.len() >= MAX_ROWS as int ==> (r matches Err(e)
                && e is Storage) && final(self)@ == old(self)@,
            r is Ok ==> final(self)@ == after_status_change(
                old(self)@,
                req@,
                owner as int,
                now as int,
            ),
            r matches Ok(resp) ==> resp@ == crate::payloads::status_response_of(
                appended_status(old(self)@, req@, owner as int, now as int),
            ),
    {
        proof {
            assert(self@.apps.len() <= MAX_ROWS as int);
        }
        let id = req.application_id;
        if id < 1 || id > self.apps.len() as i64 {
            return Err(ServiceError::NotFound);
        }
        let idx = (id - 1) as usize;
        if self.apps[idx].created_by != owner {
            return Err(ServiceError::NotFound);
        }
        if self.statuses.len() >= MAX_ROWS {
            return Err(ServiceError::Storage);
        }
        let ghost m = self@;
        let t = if now >= self.clock {
            now
        } else {
            self.clock
        };
        let status_id = (self.statuses.len() as i64) + 1;
        let st = ApplicationStatus {
            id: status_id,
            application_id: id,
            status_type: req.status_type,
            test_type: req.test_type,
            interview_type: req.interview_type,
            notes: crate::model::copy_opt_text(&req.notes),
            created_at: t,
            created_by: owner,
        };
        assert(st@ =~= appended_status(m, req@, owner as int, now as int));
        let resp = ApplicationStatusResponse::from_application_status(&st);
        self.statuses.push(st);
        self.clock = t;
        proof {
            let m2 = after_status_change(m, req@, owner as int, now as int);
            assert(self@.apps =~= m2.apps);
            assert(self@.statuses =~= m2.statuses);
            assert(self@ =~= m2);
            lemma_after_status_change_wf(m, req@, owner as int, now as int);
        }
        Ok(resp)
    }

    /// Decides whether one stored application satisfies the filter for this
    /// caller.
    fn matches_filter(&self, app: &Application, filter: &ApplicationFilter, owner: i64) -> (r:
        bool)
        requires
            self.wf(),
            1 <= app@.id <= self@.apps.len(),
            self@.apps[app@.id - 1] == app@,
        ensures
            r == app_matches(self@, filter@, owner as int, app@),
    {
        if app.created_by != owner {
            return false;
        }
        let search_ok = match &filter.search {
            Some(q) => crate::text::str_contains_ci(app.company.as_str(), q.as_str())
                || crate::text::str_contains_ci(app.position.as_str(), q.as_str()),
            None => true,
        };
        if !search_ok {
            return false;
        }
        let status_ok = match filter.status {
            Some(st) => {
                let cur = self.current_status_exec(app.id);
                cur == st
            },
            None => true,
        };
        if !status_ok {
            return false;
        }
        let from_ok = match filter.from {
            Some(t) => app.created_at >= t,
            None => true,
        };
        if !from_ok {
            return false;
        }
        match filter.to {
            Some(t) => app.created_at <= t,
            None => true,
        }
    }

    /// The filtered, paginated list query, scoped to the caller's own
    /// applications: returns the selected page of responses, newest creation
    /// time first with ties broken by id descending, together with the total
    /// number of matches, computed over the same filter as the page. Pages
    /// are 1-based; a missing or out-of-range `page` means the first page, a
    /// missing or out-of-range `size` means the default page size.
    pub fn list_applications(&self, filter: &ApplicationFilter, owner: i64) -> (r: (
        Vec<ApplicationsResponse>,
        usize,
    ))
        requires
            self.wf(),
        ensures
            r.1 == listing(self@, filter@, owner as int).len(),
            r.0@.map_values(|x: ApplicationsResponse| x@) == page_of(
                listing(self@, filter@, owner as int),
                filter@,
            ).map_values(|a: AppModel| respond_model(self@, a)),
    {
        let ghost m = self@;
        let ghost pred = |a: AppModel| app_matches(m, filter@, owner as int, a);
        let ghost l = listing(m, filter@, owner as int);
        let n = self.apps.len();
        let mut all: Vec<Application> = Vec::new();
        let mut i: usize = n;
        while i > 0
            invariant
                self.wf(),
                m == self@,
                pred == (|a: AppModel| app_matches(m, filter@, owner as int, a)),
                n == self.apps@.len(),
                i <= n,
                all@.map_values(|a: Application| a@) =~= m.apps.subrange(
                    i as int,
                    n as int,
                ).filter(pred).reverse(),
                forall|k: int|
                    0 <= k < all@.len() ==> 1 <= (#[trigger] all@[k]@).id <= n
                        && m.apps[all@[k]@.id - 1] == all@[k]@,
            decreases i,
        {
            i -= 1;
            proof {
                let sng = seq![m.apps[i as int]];
                let rest = m.apps.subrange(i + 1, n as int);
                assert(m.apps.subrange(i as int, n as int) =~= sng + rest);
                Seq::<AppModel>::filter_distributes_over_add(sng, rest, pred);
                lemma_filter_singleton(m.apps[i as int], pred);
                assert(self@.apps[i as int].id == i + 1);
            }
            if self.matches_filter(&self.apps[i], filter, owner) {
                all.push(self.apps[i].duplicate());
                proof {
                    let x = m.apps[i as int];
                    let sng = seq![x];
                    let restf = m.apps.subrange(i + 1, n as int).filter(pred);
                    assert(pred(x));
                    assert(m.apps.subrange(i as int, n as int).filter(pred) == sng + restf);
                    crate::seq_facts::lemma_reverse_prepend(x, restf);
                    assert(all@.map_values(|a: Application| a@) =~= restf.reverse().push(x));
                }
                assert(all@.map_values(|a: Application| a@) =~= m.apps.subrange(
                    i as int,
                    n as int,
                ).filter(pred).reverse());
            } else {
                assert(all@.map_values(|a: Application| a@) =~= m.apps.subrange(
                    i as int,
                    n as int,
                ).filter(pred).reverse());
            }
        }
        proof {
            assert(m.apps.subrange(0, n as int) =~= m.apps);
            assert(all@.map_values(|a: Application| a@) == l);
        }
        let total = all.len();
        assert(total == l.len());
        let ghost p = page_index(filter@);
        let ghost s = page_size(filter@);
        let pv: i64 = match filter.page {
            Some(pp) => if pp >= 1 {
                pp
            } else {
                1
            },
            None => 1,
        };
        let sv: i64 = match filter.size {
            Some(ss) => if ss >= 1 {
                ss
            } else {
                DEFAULT_PAGE_SIZE
            },
            None => DEFAULT_PAGE_SIZE,
        };
        assert(pv as int == p && sv as int == s && pv >= 1 && sv >= 1);
        assert(total <= MAX_ROWS) by {
            assert(l.len() <= m.apps.filter(pred).len());
            m.apps.lemma_filter_len(pred);
        }
        let lo: usize;
        if pv == 1 {
            proof {
                assert((p - 1) * s == 0) by (nonlinear_arith)
                    requires
                        p == 1,
                ;
            }
            assert(page_start(l.len() as int, p, s) == 0);
            lo = 0;
        } else if pv - 1 >= total as i64 || sv >= total as i64 {
            proof {
                assert((p - 1) * s >= p - 1 && (p - 1) * s >= s) by (nonlinear_arith)
                    requires
                        p >= 2,
                        s >= 1,
                ;
                assert((p - 1) * s >= l.len());
                assert(page_start(l.len() as int, p, s) == l.len());
            }
            lo = total;
        } else {
            proof {
                assert((p - 1) * s < 0x1000_0000_0000_0000) by (nonlinear_arith)
                    requires
                        0 <= p - 1 < 0x4000_0000,
                        0 <= s < 0x4000_0000,
                ;
                assert((p - 1) * s >= 0) by (nonlinear_arith)
                    requires
                        p >= 1,
                        s >= 1,
                ;
            }
            let prod = (pv - 1) * sv;
            lo = if prod >= total as i64 {
                total
            } else {
                prod as usize
            };
            assert(lo as int == page_start(l.len() as int, p, s));
        }
        assert(lo as int == page_start(l.len() as int, p, s));
        let hi: usize = if sv >= (total - lo) as i64 {
            total
        } else {
            lo + (sv as usize)
        };
        assert(hi as int == page_end(l.len() as int, p, s));
        let mut out: Vec<ApplicationsResponse> = Vec::new();
        let mut k: usize = lo;
        while k < hi
            invariant
                self.wf(),
                m == self@,
                l == listing(m, filter@, owner as int),
                lo <= k <= hi,
                hi <= all@.len(),
                all@.map_values(|a: Application| a@) == l,
                all@.len() == l.len(),
                forall|k2: int|
                    0 <= k2 < all@.len() ==> 1 <= (#[trigger] all@[k2]@).id <= m.apps.len()
                        && m.apps[all@[k2]@.id - 1] == all@[k2]@,
                out@.len() == k - lo,
                out@.map_values(|x: ApplicationsResponse| x@) =~= l.subrange(
                    lo as int,
                    k as int,
                ).map_values(|a: AppModel| respond_model(m, a)),
            decreases hi - k,
        {
            let app = &all[k];
            proof {
                assert(all@[k as int]@ == l[k as int]);
                lemma_history_nonempty(m, app@.id);
            }
            let hist = self.history_vec(app.id);
            let resp = ApplicationsResponse::from_application_and_status(app, &hist);
            proof {
                assert(hist@.map_values(|s: ApplicationStatus| s@) == history_of(m, app@.id));
                assert(resp@ == respond_model(m, l[k as int]));
            }
            let ghost prev = out@;
            out.push(resp);
            proof {
                let f = |a: AppModel| respond_model(m, a);
                let g = |x: ApplicationsResponse| x@;
                assert forall|idx: int| 0 <= idx < out@.len() implies out@.map_values(g)[idx]
                    == l.subrange(lo as int, k + 1).map_values(f)[idx] by {
                    assert(out@.map_values(g)[idx] == out@[idx]@);
                    assert(l.subrange(lo as int, k + 1).map_values(f)[idx] == f(
                        l.subrange(lo as int, k + 1)[idx],
                    ));
                    assert(l.subrange(lo as int, k + 1)[idx] == l[lo + idx]);
                    if idx < prev.len() {
                        assert(out@[idx] == prev[idx]);
                        assert(prev.map_values(g)[idx] == prev[idx]@);
                        assert(prev.map_values(g)[idx] == l.subrange(
                            lo as int,
                            k as int,
                        ).map_values(f)[idx]);
                        assert(l.subrange(lo as int, k as int).map_values(f)[idx] == f(
                            l.subrange(lo as int, k as int)[idx],
                        ));
                        assert(l.subrange(lo as int, k as int)[idx] == l[lo + idx]);
                    } else {
                        assert(out@[idx] == resp);
                    }
                }
                assert(out@.map_values(g) =~= l.subrange(lo as int, k + 1).map_values(f));
            }
            k += 1;
        }
        assert(out@.map_values(|x: ApplicationsResponse| x@) =~= page_of(
            l,
            filter@,
        ).map_values(|a: AppModel| respond_model(m, a)));
        (out, total)
    }
}

/// Law: creating an application starts its history at exactly one row — the
/// initial status — and leaves every existing application's history
/// unchanged.
pub proof fn lemma_create_initial_history(m: StoreModel, rq: RequestModel, owner: int, now: int)
    requires
        store_wf(m),
    ensures
        history_of(after_create(m, rq, owner, now), m.apps.len() as int + 1) == seq![
            initial_status(m, owner, now),
        ],
        forall|id: int|
            1 <= id <= m.apps.len() ==> #[trigger] history_of(after_create(m, rq, owner, now), id)
                == history_of(m, id),
{
    let m2 = after_create(m, rq, owner, now);
    let na = m.apps.len() as int;
    let init = initial_status(m, owner, now);
    assert(m2.statuses =~= m.statuses + seq![init]);
    let pnew = |s: StatusModel| s.application_id == na + 1;
    Seq::<StatusModel>::filter_distributes_over_add(m.statuses, seq![init], pnew);
    lemma_filter_singleton(init, pnew);
    assert forall|k: int| 0 <= k < m.statuses.len() implies !pnew(#[trigger] m.statuses[k]) by {}
    lemma_filter_empty(m.statuses, pnew);
    assert(history_of(m2, na + 1) =~= seq![init]);
    assert forall|id: int| 1 <= id <= na implies #[trigger] history_of(m2, id) == history_of(
        m,
        id,
    ) by {
        let p = |s: StatusModel| s.application_id == id;
        Seq::<StatusModel>::filter_distributes_over_add(m.statuses, seq![init], p);
        lemma_filter_singleton(init, p);
        assert(history_of(m2, id) =~= history_of(m, id));
    }
}

/// Law: a recorded status change appends exactly one row to its own
/// application's history — so N changes after creation yield N + 1 rows —
/// and leaves every other application's history unchanged.
pub proof fn lemma_status_append(m: StoreModel, rq: StatusRequestModel, owner: int, now: int)
    ensures
        history_of(after_status_change(m, rq, owner, now), rq.application_id) == history_of(
            m,
            rq.application_id,
        ).push(appended_status(m, rq, owner, now)),
        forall|id: int|
            id != rq.application_id ==> #[trigger] history_of(
                after_status_change(m, rq, owner, now),
                id,
            ) == history_of(m, id),
{
    let m2 = after_status_change(m, rq, owner, now);
    let x = appended_status(m, rq, owner, now);
    assert(m2.statuses =~= m.statuses + seq![x]);
    let pown = |s: StatusModel| s.application_id == rq.application_id;
    Seq::<StatusModel>::filter_distributes_over_add(m.statuses, seq![x], pown);
    lemma_filter_singleton(x, pown);
    assert(history_of(m2, rq.application_id) =~= history_of(m, rq.application_id).push(x));
    assert forall|id: int| id != rq.application_id implies #[trigger] history_of(m2, id)
        == history_of(m, id) by {
        let p = |s: StatusModel| s.application_id == id;
        Seq::<StatusModel>::filter_distributes_over_add(m.statuses, seq![x], p);
        lemma_filter_singleton(x, p);
        assert(history_of(m2, id) =~= history_of(m, id));
    }
}

/// Ascending creation time survives filtering.
proof fn lemma_filter_statuses_sorted(s: Seq<StatusModel>, p: spec_fn(StatusModel) -> bool)
    requires
        forall|i: int, j: int|
            0 <= i <= j < s.len() ==> (#[trigger] s[i]).created_at <= (#[trigger] s[j]).created_at,
    ensures
        forall|i: int, j: int|
            0 <= i <= j < s.filter(p).len() ==> (#[trigger] s.filter(p)[i]).created_at
                <= (#[trigger] s.filter(p)[j]).created_at,
    decreases s.len(),
{
    reveal(Seq::filter);
    if s.len() > 0 {
        let d = s.drop_last();
        assert forall|i: int, j: int| 0 <= i <= j < d.len() implies (#[trigger] d[i]).created_at
            <= (#[trigger] d[j]).created_at by {
            assert(d[i] == s[i]);
            assert(d[j] == s[j]);
        }
        lemma_filter_statuses_sorted(d, p);
        let f = s.filter(p);
        let fd = d.filter(p);
        if p(s.last()) {
            lemma_filter_in(d, p);
            assert forall|i: int, j: int| 0 <= i <= j < f.len() implies (#[trigger] f[i]).created_at
                <= (#[trigger] f[j]).created_at by {
                if j < fd.len() {
                    assert(f[i] == fd[i] && f[j] == fd[j]);
                } else if i < fd.len() {
                    assert(f[j] == s.last());
                    assert(f[i] == fd[i]);
                    assert(d.contains(fd[i]));
                    let w = choose|w: int| 0 <= w < d.len() && d[w] == fd[i];
                    assert(d[w] == s[w]);
                    assert(s[w].created_at <= s[s.len() - 1].created_at);
                }
            }
        }
    }
}

/// Law: a status history is ordered by creation time ascending.
pub proof fn lemma_history_sorted(m: StoreModel, id: int)
    requires
        store_wf(m),
    ensures
        forall|i: int, j: int|
            0 <= i <= j < history_of(m, id).len() ==> (#[trigger] history_of(m, id)[i]).created_at
                <= (#[trigger] history_of(m, id)[j]).created_at,
{
    lemma_filter_statuses_sorted(m.statuses, |s: StatusModel| s.application_id == id);
}

/// Law: with a status filter, the listing holds only applications whose
/// current status — the status of the last history row — equals the filtered
/// one; an application that had that status only earlier in its history is
/// excluded, since only its last row defines its current status.
pub proof fn lemma_listing_respects_status_filter(
    m: StoreModel,
    f: FilterModel,
    owner: int,
    st: Status,
)
    requires
        f.status == Some(st),
    ensures
        forall|k: int|
            0 <= k < listing(m, f, owner).len() ==> current_status(
                m,
                (#[trigger] listing(m, f, owner)[k]).id,
            ) == st,
{
    broadcast use vstd::seq_lib::group_filter_ensures;

    let pred = |a: AppModel| app_matches(m, f, owner, a);
    let fl = m.apps.filter(pred);
    let l = listing(m, f, owner);
    assert forall|k: int| 0 <= k < l.len() implies current_status(m, (#[trigger] l[k]).id)
        == st by {
        assert(l[k] == fl[fl.len() - 1 - k]);
        assert(pred(fl[fl.len() - 1 - k]));
    }
}

/// Law: the listing holds exactly the matching applications: every stored
/// application that satisfies the filter appears in it, and every entry of it
/// is a stored application that satisfies the filter.
pub proof fn lemma_listing_complete(m: StoreModel, f: FilterModel, owner: int)
    ensures
        forall|k: int|
            0 <= k < m.apps.len() && app_matches(m, f, owner, #[trigger] m.apps[k]) ==> listing(
                m,
                f,
                owner,
            ).contains(m.apps[k]),
        forall|k: int|
            0 <= k < listing(m, f, owner).len() ==> app_matches(
                m,
                f,
                owner,
                #[trigger] listing(m, f, owner)[k],
            ) && m.apps.contains(listing(m, f, owner)[k]),
{
    broadcast use vstd::seq_lib::group_filter_ensures;

    let pred = |a: AppModel| app_matches(m, f, owner, a);
    let fl = m.apps.filter(pred);
    let l = listing(m, f, owner);
    lemma_filter_in(m.apps, pred);
    assert forall|k: int|
        0 <= k < m.apps.len() && app_matches(m, f, owner, #[trigger] m.apps[k]) implies l.contains(
        m.apps[k],
    ) by {
        assert(fl.contains(m.apps[k]));
        let w = choose|w: int| 0 <= w < fl.len() && fl[w] == m.apps[k];
        assert(l[fl.len() - 1 - w] == fl[w]);
    }
    assert forall|k: int| 0 <= k < l.len() implies app_matches(m, f, owner, #[trigger] l[k])
        && m.apps.contains(l[k]) by {
        assert(l[k] == fl[fl.len() - 1 - k]);
        assert(pred(fl[fl.len() - 1 - k]));
        assert(m.apps.contains(fl[fl.len() - 1 - k]));
    }
}

/// Ascending creation time with strictly increasing ids survives filtering.
proof fn lemma_filter_apps_sorted(s: Seq<AppModel>, p: spec_fn(AppModel) -> bool)
    requires
        forall|i: int, j: int|
            0 <= i <= j < s.len() ==> (#[trigger] s[i]).created_at <= (#[trigger] s[j]).created_at,
        forall|i: int, j: int| 0 <= i < j < s.len() ==> (#[trigger] s[i]).id < (#[trigger] s[j]).id,
    ensures
        forall|i: int, j: int|
            0 <= i <= j < s.filter(p).len() ==> (#[trigger] s.filter(p)[i]).created_at
                <= (#[trigger] s.filter(p)[j]).created_at,
        forall|i: int, j: int|
            0 <= i < j < s.filter(p).len() ==> (#[trigger] s.filter(p)[i]).id
                < (#[trigger] s.filter(p)[j]).id,
    decreases s.len(),
{
    reveal(Seq::filter);
    if s.len() > 0 {
        let d = s.drop_last();
        assert forall|i: int, j: int| 0 <= i <= j < d.len() implies (#[trigger] d[i]).created_at
            <= (#[trigger] d[j]).created_at by {
            assert(d[i] == s[i]);
            assert(d[j] == s[j]);
        }
        assert forall|i: int, j: int| 0 <= i < j < d.len() implies (#[trigger] d[i]).id
            < (#[trigger] d[j]).id by {
            assert(d[i] == s[i]);
            assert(d[j] == s[j]);
        }
        lemma_filter_apps_sorted(d, p);
        let f = s.filter(p);
        let fd = d.filter(p);
        if p(s.last()) {
            lemma_filter_in(d, p);
            assert forall|i: int, j: int| 0 <= i <= j < f.len() implies (#[trigger] f[i]).created_at
                <= (#[trigger] f[j]).created_at && (i < j ==> f[i].id < f[j].id) by {
                if j < fd.len() {
                    assert(f[i] == fd[i] && f[j] == fd[j]);
                } else if i < fd.len() {
                    assert(f[j] == s.last());
                    assert(f[i] == fd[i]);
                    assert(d.contains(fd[i]));
                    let w = choose|w: int| 0 <= w < d.len() && d[w] == fd[i];
                    assert(d[w] == s[w]);
                    assert(s[w].created_at <= s[s.len() - 1].created_at);
                    assert(s[w].id < s[s.len() - 1].id);
                }
            }
        }
    }
}

/// Law: the listing is ordered newest creation time first, ties broken by id
/// descending; since ids are unique, the order is strict and pagination over
/// it is deterministic.
pub proof fn lemma_listing_ordered(m: StoreModel, f: FilterModel, owner: int)
    requires
        store_wf(m),
    ensures
        forall|i: int, j: int|
            0 <= i < j < listing(m, f, owner).len() ==> ((#[trigger] listing(m, f, owner)[j]).created_at
                <= (#[trigger] listing(m, f, owner)[i]).created_at && (listing(m, f, owner)[j].created_at
                == listing(m, f, owner)[i].created_at ==> listing(m, f, owner)[j].id < listing(
                m,
                f,
                owner,
            )[i].id)),
{
    let pred = |a: AppModel| app_matches(m, f, owner, a);
    let fl = m.apps.filter(pred);
    let l = listing(m, f, owner);
    assert forall|i: int, j: int| 0 <= i < j < m.apps.len() implies (#[trigger] m.apps[i]).id
        < (#[trigger] m.apps[j]).id by {}
    lemma_filter_apps_sorted(m.apps, pred);
    assert forall|i: int, j: int| 0 <= i < j < l.len() implies ((#[trigger] l[j]).created_at
        <= (#[trigger] l[i]).created_at && (l[j].created_at == l[i].created_at ==> l[j].id
        < l[i].id)) by {
        assert(l[i] == fl[fl.len() - 1 - i]);
        assert(l[j] == fl[fl.len() - 1 - j]);
    }
}

/// The concatenation of the first `p` pages of size `s`.
pub open spec fn pages_up_to(l: Seq<AppModel>, s: int, p: int) -> Seq<AppModel>
    recommends
        s >= 1,
        p >= 0,
    decreases p,
{
    if p <= 0 {
        Seq::empty()
    } else {
        pages_up_to(l, s, p - 1) + page_slice(l, p, s)
    }
}

/// Law: pages are contiguous: the first `p` pages, in order, are exactly the
/// prefix of the result that ends where page `p + 1` starts.
pub proof fn lemma_pages_prefix(l: Seq<AppModel>, s: int, p: int)
    requires
        s >= 1,
        p >= 0,
    ensures
        pages_up_to(l, s, p) == l.subrange(0, page_start(l.len() as int, p + 1, s)),
    decreases p,
{
    let len = l.len() as int;
    if p == 0 {
        assert(1 * s == s) by (nonlinear_arith);
        assert(0 * s == 0) by (nonlinear_arith);
        assert(pages_up_to(l, s, 0) =~= l.subrange(0, 0));
    } else {
        lemma_pages_prefix(l, s, p - 1);
        assert((p - 1) * s + s == p * s) by (nonlinear_arith);
        assert(p * s + s == (p + 1) * s) by (nonlinear_arith);
        assert((p - 1) * s <= p * s && p * s <= (p + 1) * s) by (nonlinear_arith)
            requires
                s >= 1,
        ;
        let a = page_start(len, p, s);
        let b = page_end(len, p, s);
        assert(page_start(len, p + 1, s) == b);
        assert(pages_up_to(l, s, p) == l.subrange(0, a) + l.subrange(a, b));
        assert(l.subrange(0, a) + l.subrange(a, b) =~= l.subrange(0, b));
    }
}

/// Law: once `p * s` reaches the total, the union of the first `p` pages, in
/// order, is the entire result.
pub proof fn lemma_pages_cover(l: Seq<AppModel>, s: int, p: int)
    requires
        s >= 1,
        p >= 0,
        p * s >= l.len(),
    ensures
        pages_up_to(l, s, p) == l,
{
    lemma_pages_prefix(l, s, p);
    assert((p + 1) * s == p * s + s) by (nonlinear_arith);
    assert(page_start(l.len() as int, p + 1, s) == l.len());
    assert(l.subrange(0, l.len() as int) =~= l);
}

/// Law: two distinct pages of the same result are disjoint: the earlier page
/// ends at or before the index where the later page starts.
pub proof fn lemma_pages_disjoint(l: Seq<AppModel>, s: int, p1: int, p2: int)
    requires
        s >= 1,
        1 <= p1 < p2,
    ensures
        page_end(l.len() as int, p1, s) <= page_start(l.len() as int, p2, s),
{
    let len = l.len() as int;
    assert((p1 - 1) * s + s == p1 * s) by (nonlinear_arith);
    assert(p1 * s <= (p2 - 1) * s) by (nonlinear_arith)
        requires
            p1 <= p2 - 1,
            s >= 0,
    ;
}

/// Law: the paging options play no part in which applications match: the
/// full result — and with it the reported total — is the same whatever page
/// and size are requested.
pub proof fn lemma_total_invariant(m: StoreModel, f1: FilterModel, f2: FilterModel, owner: int)
    requires
        f1.search == f2.search,
        f1.status == f2.status,
        f1.from == f2.from,
        f1.to == f2.to,
    ensures
        listing(m, f1, owner) == listing(m, f2, owner),
{
    let p1 = |a: AppModel| app_matches(m, f1, owner, a);
    let p2 = |a: AppModel| app_matches(m, f2, owner, a);
    assert forall|k: int| 0 <= k < m.apps.len() implies p1(#[trigger] m.apps[k]) == p2(
        m.apps[k],
    ) by {}
    crate::seq_facts::lemma_filter_congruent(m.apps, p1, p2);
}

/// A successful status change preserves well-formedness.
proof fn lemma_after_status_change_wf(m: StoreModel, rq: StatusRequestModel, owner: int, now: int)
    requires
        store_wf(m),
        m.statuses.len() < MAX_ROWS as int,
        1 <= rq.application_id <= m.apps.len(),
    ensures
        store_wf(after_status_change(m, rq, owner, now)),
{
    let m2 = after_status_change(m, rq, owner, now);
    assert forall|id: int| 1 <= id <= m2.apps.len() implies #[trigger] has_status_row(m2, id) by {
        assert(has_status_row(m, id));
        let j = choose|j: int|
            0 <= j < m.statuses.len() && (#[trigger] m.statuses[j]).application_id == id;
        assert(m2.statuses[j] == m.statuses[j]);
    }
}

/// A successful creation preserves well-formedness.
proof fn lemma_after_create_wf(m: StoreModel, rq: RequestModel, owner: int, now: int)
    requires
        store_wf(m),
        can_insert(m),
    ensures
        store_wf(after_create(m, rq, owner, now)),
{
    let m2 = after_create(m, rq, owner, now);
    let na = m.apps.len() as int;
    let ns = m.statuses.len() as int;
    assert forall|id: int| 1 <= id <= m2.apps.len() implies #[trigger] has_status_row(m2, id) by {
        if id <= na {
            assert(has_status_row(m, id));
            let j = choose|j: int|
                0 <= j < m.statuses.len() && (#[trigger] m.statuses[j]).application_id == id;
            assert(m2.statuses[j] == m.statuses[j]);
        } else {
            assert(m2.statuses[ns].application_id == na + 1);
        }
    }
}

} // verus!
