//! The enumerated domain values: status kinds, application types and the
//! optional test / interview subtypes carried by individual history rows.

use vstd::prelude::*;

verus! {

/// The stage a job application is in. The current status of an application is
/// the status of its most recently created history row.
#[derive(Clone, Copy, PartialEq, Eq, Structural, Debug)]
pub enum Status {
    Applied,
    Interviewing,
    Testing,
    Offered,
    Rejected,
}

/// The working arrangement a position offers.
#[derive(Clone, Copy, PartialEq, Eq, Structural, Debug)]
pub enum ApplicationType {
    Remote,
    OnSite,
    Hybrid,
}

/// The kind of assessment, meaningful on `Testing` history rows.
#[derive(Clone, Copy, PartialEq, Eq, Structural, Debug)]
pub enum TestType {
    OnlineAssessment,
    TakeHome,
    Live,
}

/// The kind of interview, meaningful on `Interviewing` history rows.
#[derive(Clone, Copy, PartialEq, Eq, Structural, Debug)]
pub enum InterviewType {
    Screening,
    Technical,
    Behavioral,
    Final,
}

impl Default for Status {
    /// The system's default initial status: every application starts `Applied`.
    fn default() -> (r: Status)
        ensures
            r == Status::Applied,
    {
        Status::Applied
    }
}

} // verus!
