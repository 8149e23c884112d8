use job_tracker::domain::{InterviewType, Status, TestType};
use job_tracker::errors::{ApiError, ServiceError};
use job_tracker::model::{Application, ApplicationStatus};
use job_tracker::payloads::{
    ApplicationRequest, ApplicationStatusResponse, ApplicationsResponse,
};
use job_tracker::text::str_contains_ci;

fn sample_application() -> Application {
    Application {
        id: 4,
        company: "Acme".to_string(),
        position: "Engineer".to_string(),
        website: Some("https://acme.example".to_string()),
        application_type: None,
        created_at: 11,
        created_by: 2,
    }
}

fn sample_status(id: i64, status_type: Status, created_at: i64) -> ApplicationStatus {
    ApplicationStatus {
        id,
        application_id: 4,
        status_type,
        test_type: None,
        interview_type: None,
        notes: None,
        created_at,
        created_by: 2,
    }
}

#[test]
fn status_response_renames_fields() {
    let row = ApplicationStatus {
        id: 9,
        application_id: 4,
        status_type: Status::Testing,
        test_type: Some(TestType::TakeHome),
        interview_type: Some(InterviewType::Screening),
        notes: Some("sent a repo".to_string()),
        created_at: 33,
        created_by: 2,
    };
    let resp = ApplicationStatusResponse::from_application_status(&row);
    assert_eq!(resp.id, 9);
    assert_eq!(resp.application_id, 4);
    assert_eq!(resp.status, Status::Testing);
    assert_eq!(resp.test_type, Some(TestType::TakeHome));
    assert_eq!(resp.interview_type, Some(InterviewType::Screening));
    assert_eq!(resp.notes.as_deref(), Some("sent a repo"));
    assert_eq!(resp.created_at, 33);
    assert_eq!(resp.created_by, 2);
}

#[test]
fn assembly_derives_status_from_last_row() {
    let app = sample_application();
    let rows = vec![
        sample_status(1, Status::Applied, 11),
        sample_status(2, Status::Interviewing, 12),
    ];
    let resp = ApplicationsResponse::from_application_and_status(&app, &rows);
    assert_eq!(resp.id, 4);
    assert_eq!(resp.company, "Acme");
    assert_eq!(resp.position, "Engineer");
    assert_eq!(resp.website.as_deref(), Some("https://acme.example"));
    assert_eq!(resp.status, Status::Interviewing);
    assert_eq!(resp.status_history.len(), 2);
    assert_eq!(resp.status_history[0].status, Status::Applied);
    assert_eq!(resp.status_history[1].status, Status::Interviewing);
}

#[test]
fn assembly_with_empty_history_is_internal_error() {
    let app = sample_application();
    let rows: Vec<ApplicationStatus> = Vec::new();
    let r = ApplicationsResponse::try_from_application_and_status(&app, &rows);
    assert!(matches!(r, Err(ServiceError::Internal)));
}

#[test]
fn try_assembly_succeeds_on_nonempty_history() {
    let app = sample_application();
    let rows = vec![sample_status(1, Status::Applied, 11)];
    let r = ApplicationsResponse::try_from_application_and_status(&app, &rows).unwrap();
    assert_eq!(r.status, Status::Applied);
}

#[test]
fn api_error_codes() {
    let v = ApiError::from_service_error(&ServiceError::Validation(
        "Company name cannot be empty".to_string(),
    ));
    assert_eq!(v.status_code, 400);
    assert_eq!(v.message, "Company name cannot be empty");
    let nf = ApiError::from_service_error(&ServiceError::NotFound);
    assert_eq!(nf.status_code, 404);
    assert_eq!(nf.message, "Not Found");
    let st = ApiError::from_service_error(&ServiceError::Storage);
    assert_eq!(st.status_code, 500);
    assert_eq!(st.message, "Internal Server Error");
    let it = ApiError::from_service_error(&ServiceError::Internal);
    assert_eq!(it.status_code, 500);
    assert_eq!(it.message, "Internal Server Error");
}

#[test]
fn default_status_is_applied() {
    assert_eq!(Status::default(), Status::Applied);
}

#[test]
fn validate_accepts_nonempty_fields() {
    let req = ApplicationRequest {
        company: "Acme".to_string(),
        position: "Engineer".to_string(),
        website: None,
        application_type: None,
    };
    assert!(req.validate().is_ok());
}

#[test]
fn substring_search_folds_ascii_case() {
    assert!(str_contains_ci("Hello World", "o w"));
    assert!(str_contains_ci("ABC", "abc"));
    assert!(str_contains_ci("abc", "ABC"));
    assert!(str_contains_ci("anything", ""));
    assert!(str_contains_ci("", ""));
    assert!(!str_contains_ci("", "a"));
    assert!(!str_contains_ci("abc", "abcd"));
    assert!(!str_contains_ci("abc", "zz"));
}
