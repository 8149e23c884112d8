//! Request, filter and response shapes, with their mathematical models.
//!
//! Responses are derived, never stored: an `ApplicationsResponse` carries the
//! full status history of its application, and its `status` field is always
//! the status of the last history row.

use vstd::prelude::*;

use crate::domain::{ApplicationType, InterviewType, Status, TestType};
use crate::errors::ServiceError;
use crate::model::{opt_text, AppModel, Application, ApplicationStatus, StatusModel};

verus! {

/// The body of a creation request.
pub struct ApplicationRequest {
    pub company: String,
    pub position: String,
    pub website: Option<String>,
    pub application_type: Option<ApplicationType>,
}

/// The mathematical model of an `ApplicationRequest`.
#[verifier::ext_equal]
pub struct RequestModel {
    pub company: Seq<char>,
    pub position: Seq<char>,
    pub website: Option<Seq<char>>,
    pub application_type: Option<ApplicationType>,
}

impl View for ApplicationRequest {
    type V = RequestModel;

    open spec fn view(&self) -> RequestModel {
        RequestModel {
            company: self.company@,
            position: self.position@,
            website: opt_text(self.website),
            application_type: self.application_type,
        }
    }
}

/// A creation request is well formed when both required text fields are
/// non-empty.
pub open spec fn request_valid(r: RequestModel) -> bool {
    r.company.len() > 0 && r.position.len() > 0
}

impl ApplicationRequest {
    /// Boundary validation: accepts exactly the well-formed requests, and
    /// reports the first empty required field.
    pub fn validate(&self) -> (r: Result<(), ServiceError>)
        ensures
            r is Ok <==> request_valid(self@),
            self@.company.len() == 0 ==> (r matches Err(ServiceError::Validation(m))
                && m@ == "Company name cannot be empty"@),
            self@.company.len() > 0 && self@.position.len() == 0 ==> (r matches Err(
                ServiceError::Validation(m),
            ) && m@ == "Position cannot be empty"@),
    {
        if self.company.as_str().is_empty() {
            Err(ServiceError::Validation("Company name cannot be empty".to_owned()))
        } else if self.position.as_str().is_empty() {
            Err(ServiceError::Validation("Position cannot be empty".to_owned()))
        } else {
            Ok(())
        }
    }
}

/// The body of a status-change request.
pub struct ApplicationStatusRequest {
    pub application_id: i64,
    pub status_type: Status,
    pub test_type: Option<TestType>,
    pub interview_type: Option<InterviewType>,
    pub notes: Option<String>,
}

/// The mathematical model of an `ApplicationStatusRequest`.
#[verifier::ext_equal]
pub struct StatusRequestModel {
    pub application_id: int,
    pub status_type: Status,
    pub test_type: Option<TestType>,
    pub interview_type: Option<InterviewType>,
    pub notes: Option<Seq<char>>,
}

impl View for ApplicationStatusRequest {
    type V = StatusRequestModel;

    open spec fn view(&self) -> StatusRequestModel {
        StatusRequestModel {
            application_id: self.application_id as int,
            status_type: self.status_type,
            test_type: self.test_type,
            interview_type: self.interview_type,
            notes: opt_text(self.notes),
        }
    }
}

/// The recognized options of the list query.
pub struct ApplicationFilter {
    pub search: Option<String>,
    pub status: Option<Status>,
    pub from: Option<i64>,
    pub to: Option<i64>,
    pub page: Option<i64>,
    pub size: Option<i64>,
}

/// The model of an optional integer parameter.
pub open spec fn opt_int(o: Option<i64>) -> Option<int> {
    match o {
        Some(v) => Some(v as int),
        None => None,
    }
}

/// The mathematical model of an `ApplicationFilter`.
#[verifier::ext_equal]
pub struct FilterModel {
    pub search: Option<Seq<char>>,
    pub status: Option<Status>,
    pub from: Option<int>,
    pub to: Option<int>,
    pub page: Option<int>,
    pub size: Option<int>,
}

impl View for ApplicationFilter {
    type V = FilterModel;

    open spec fn view(&self) -> FilterModel {
        FilterModel {
            search: opt_text(self.search),
            status: self.status,
            from: opt_int(self.from),
            to: opt_int(self.to),
            page: opt_int(self.page),
            size: opt_int(self.size),
        }
    }
}

/// One history entry as presented on the wire.
pub struct ApplicationStatusResponse {
    pub id: i64,
    pub application_id: i64,
    pub created_by: i64,
    pub status: Status,
    pub created_at: i64,
    pub test_type: Option<TestType>,
    pub interview_type: Option<InterviewType>,
    pub notes: Option<String>,
}

/// The mathematical model of an `ApplicationStatusResponse`.
#[verifier::ext_equal]
pub struct StatusResponseModel {
    pub id: int,
    pub application_id: int,
    pub created_by: int,
    pub status: Status,
    pub created_at: int,
    pub test_type: Option<TestType>,
    pub interview_type: Option<InterviewType>,
    pub notes: Option<Seq<char>>,
}

impl View for ApplicationStatusResponse {
    type V = StatusResponseModel;

    open spec fn view(&self) -> StatusResponseModel {
        StatusResponseModel {
            id: self.id as int,
            application_id: self.application_id as int,
            created_by: self.created_by as int,
            status: self.status,
            created_at: self.created_at as int,
            test_type: self.test_type,
            interview_type: self.interview_type,
            notes: opt_text(self.notes),
        }
    }
}

/// The wire shape of one history row: a field-for-field renaming of the
/// stored entry.
pub open spec fn status_response_of(s: StatusModel) -> StatusResponseModel {
    StatusResponseModel {
        id: s.id,
        application_id: s.application_id,
        created_by: s.created_by,
        status: s.status_type,
        created_at: s.created_at,
        test_type: s.test_type,
        interview_type: s.interview_type,
        notes: s.notes,
    }
}

/// An application as presented on the wire, with its derived current status
/// and full history.
pub struct ApplicationsResponse {
    pub id: i64,
    pub company: String,
    pub position: String,
    pub website: Option<String>,
    pub application_type: Option<ApplicationType>,
    pub created_at: i64,
    pub created_by: i64,
    pub status: Status,
    pub status_history: Vec<ApplicationStatusResponse>,
}

/// The mathematical model of an `ApplicationsResponse`.
#[verifier::ext_equal]
pub struct ResponseModel {
    pub id: int,
    pub company: Seq<char>,
    pub position: Seq<char>,
    pub website: Option<Seq<char>>,
    pub application_type: Option<ApplicationType>,
    pub created_at: int,
    pub created_by: int,
    pub status: Status,
    pub status_history: Seq<StatusResponseModel>,
}

impl View for ApplicationsResponse {
    type V = ResponseModel;

    open spec fn view(&self) -> ResponseModel {
        ResponseModel {
            id: self.id as int,
            company: self.company@,
            position: self.position@,
            website: opt_text(self.website),
            application_type: self.application_type,
            created_at: self.created_at as int,
            created_by: self.created_by as int,
            status: self.status,
            status_history: self.status_history@.map_values(
                |s: ApplicationStatusResponse| s@,
            ),
        }
    }
}

/// The response derived from an application and its non-empty history: every
/// field of the application, the history mapped to wire shape, and the
/// current status taken from the last history row.
pub open spec fn assemble(a: AppModel, h: Seq<StatusModel>) -> ResponseModel
    recommends
        h.len() > 0,
{
    ResponseModel {
        id: a.id,
        company: a.company,
        position: a.position,
        website: a.website,
        application_type: a.application_type,
        created_at: a.created_at,
        created_by: a.created_by,
        status: h.last().status_type,
        status_history: h.map_values(|s: StatusModel| status_response_of(s)),
    }
}

impl ApplicationStatusResponse {
    /// Maps a stored history row to its wire shape; renaming only, no logic.
    pub fn from_application_status(application_status: &ApplicationStatus) -> (r: Self)
        ensures
            r@ == status_response_of(application_status@),
    {
        let r = ApplicationStatusResponse {
            id: application_status.id,
            application_id: application_status.application_id,
            created_by: application_status.created_by,
            status: application_status.status_type,
            created_at: application_status.created_at,
            test_type: application_status.test_type,
            interview_type: application_status.interview_type,
            notes: crate::model::copy_opt_text(&application_status.notes),
        };
        assert(r@ =~= status_response_of(application_status@));
        r
    }
}

impl ApplicationsResponse {
    /// Derives the wire response from an application and its status history;
    /// the history must be non-empty, as the store's invariant guarantees for
    /// every created application.
    pub fn from_application_and_status(
        application: &Application,
        statuses: &Vec<ApplicationStatus>,
    ) -> (r: Self)
        requires
            statuses@.len() > 0,
        ensures
            r@ == assemble(application@, statuses@.map_values(|s: ApplicationStatus| s@)),
    {
        let ghost hm = statuses@.map_values(|s: ApplicationStatus| s@);
        let mut history: Vec<ApplicationStatusResponse> = Vec::new();
        let n = statuses.len();
        let mut i: usize = 0;
        while i < n
            invariant
                n == statuses@.len(),
                i <= n,
                hm == statuses@.map_values(|s: ApplicationStatus| s@),
                history@.len() == i,
                forall|k: int| 0 <= k < i ==> #[trigger] history@[k]@ == status_response_of(hm[k]),
            decreases n - i,
        {
            let entry = ApplicationStatusResponse::from_application_status(&statuses[i]);
            history.push(entry);
            i += 1;
        }
        let r = ApplicationsResponse {
            id: application.id,
            company: application.company.clone(),
            position: application.position.clone(),
            website: crate::model::copy_opt_text(&application.website),
            application_type: application.application_type,
            created_at: application.created_at,
            created_by: application.created_by,
            status: statuses[n - 1].status_type,
            status_history: history,
        };
        assert(hm.subrange(0, n as int) =~= hm);
        assert(statuses@[n - 1]@ == hm[n - 1]);
        assert(r@ =~= assemble(application@, hm));
        r
    }

    /// The fallible form of the derivation: reports the broken invariant as a
    /// typed internal error instead of requiring a non-empty history.
    pub fn try_from_application_and_status(
        application: &Application,
        statuses: &Vec<ApplicationStatus>,
    ) -> (r: Result<Self, ServiceError>)
        ensures
            r is Ok <==> statuses@.len() > 0,
            statuses@.len() == 0 ==> r matches Err(ServiceError::Internal),
            r matches Ok(resp) ==> resp@ == assemble(
                application@,
                statuses@.map_values(|s: ApplicationStatus| s@),
            ),
    {
        if statuses.len() == 0 {
            Err(ServiceError::Internal)
        } else {
            Ok(Self::from_application_and_status(application, statuses))
        }
    }
}

} // verus!
