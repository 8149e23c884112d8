//! The persisted entities and their mathematical models.
//!
//! `Application` and `ApplicationStatus` mirror the two relational tables.
//! Each has a ghost model (`AppModel`, `StatusModel`) over `int` and
//! `Seq<char>`, reached through `View`; every contract in the library speaks
//! of these models. Timestamps are plain integers (e.g. milliseconds since an
//! epoch): the library never computes with calendar dates, it only stores,
//! compares and orders creation times.

use vstd::prelude::*;

use crate::domain::{ApplicationType, InterviewType, Status, TestType};

verus! {

/// A tracked job application.
pub struct Application {
    pub id: i64,
    pub company: String,
    pub position: String,
    pub website: Option<String>,
    pub application_type: Option<ApplicationType>,
    pub created_at: i64,
    pub created_by: i64,
}

/// One immutable entry in an application's status history: append-only, never
/// updated or deleted.
pub struct ApplicationStatus {
    pub id: i64,
    pub application_id: i64,
    pub status_type: Status,
    pub test_type: Option<TestType>,
    pub interview_type: Option<InterviewType>,
    pub notes: Option<String>,
    pub created_at: i64,
    pub created_by: i64,
}

/// The mathematical model of an `Application`.
#[verifier::ext_equal]
pub struct AppModel {
    pub id: int,
    pub company: Seq<char>,
    pub position: Seq<char>,
    pub website: Option<Seq<char>>,
    pub application_type: Option<ApplicationType>,
    pub created_at: int,
    pub created_by: int,
}

/// The mathematical model of an `ApplicationStatus`.
#[verifier::ext_equal]
pub struct StatusModel {
    pub id: int,
    pub application_id: int,
    pub status_type: Status,
    pub test_type: Option<TestType>,
    pub interview_type: Option<InterviewType>,
    pub notes: Option<Seq<char>>,
    pub created_at: int,
    pub created_by: int,
}

/// The model of an optional text field: the character sequence, if present.
pub open spec fn opt_text(o: Option<String>) -> Option<Seq<char>> {
    match o {
        Some(s) => Some(s@),
        None => None,
    }
}

impl View for Application {
    type V = AppModel;

    open spec fn view(&self) -> AppModel {
        AppModel {
            id: self.id as int,
            company: self.company@,
            position: self.position@,
            website: opt_text(self.website),
            application_type: self.application_type,
            created_at: self.created_at as int,
            created_by: self.created_by as int,
        }
    }
}

impl View for ApplicationStatus {
    type V = StatusModel;

    open spec fn view(&self) -> StatusModel {
        StatusModel {
            id: self.id as int,
            application_id: self.application_id as int,
            status_type: self.status_type,
            test_type: self.test_type,
            interview_type: self.interview_type,
            notes: opt_text(self.notes),
            created_at: self.created_at as int,
            created_by: self.created_by as int,
        }
    }
}

/// Copies an optional text field; the copy has the same model.
pub fn copy_opt_text(o: &Option<String>) -> (r: Option<String>)
    ensures
        opt_text(r) == opt_text(*o),
{
    match o {
        Some(s) => Some(s.clone()),
        None => None,
    }
}

impl Application {
    /// Copies the record; the copy has the same model.
    pub fn duplicate(&self) -> (r: Application)
        ensures
            r@ == self@,
    {
        let r = Application {
            id: self.id,
            company: self.company.clone(),
            position: self.position.clone(),
            website: copy_opt_text(&self.website),
            application_type: self.application_type,
            created_at: self.created_at,
            created_by: self.created_by,
        };
        assert(r@ =~= self@);
        r
    }
}

impl ApplicationStatus {
    /// Copies the record; the copy has the same model.
    pub fn duplicate(&self) -> (r: ApplicationStatus)
        ensures
            r@ == self@,
    {
        let r = ApplicationStatus {
            id: self.id,
            application_id: self.application_id,
            status_type: self.status_type,
            test_type: self.test_type,
            interview_type: self.interview_type,
            notes: copy_opt_text(&self.notes),
            created_at: self.created_at,
            created_by: self.created_by,
        };
        assert(r@ =~= self@);
        r
    }
}

} // verus!
