use job_tracker::domain::{InterviewType, Status};
use job_tracker::errors::ServiceError;
use job_tracker::payloads::{ApplicationRequest, ApplicationStatusRequest};
use job_tracker::store::Store;

fn request(company: &str, position: &str) -> ApplicationRequest {
    ApplicationRequest {
        company: company.to_string(),
        position: position.to_string(),
        website: None,
        application_type: None,
    }
}

fn status_request(application_id: i64, status_type: Status) -> ApplicationStatusRequest {
    ApplicationStatusRequest {
        application_id,
        status_type,
        test_type: None,
        interview_type: None,
        notes: None,
    }
}

#[test]
fn create_returns_response_with_defaults() {
    let mut store = Store::new();
    let resp = store
        .create_application(&request("Acme", "Engineer"), 1, 100)
        .unwrap();
    assert_eq!(resp.id, 1);
    assert_eq!(resp.company, "Acme");
    assert_eq!(resp.position, "Engineer");
    assert!(resp.website.is_none());
    assert!(resp.application_type.is_none());
    assert_eq!(resp.status, Status::Applied);
    assert_eq!(resp.created_by, 1);
    assert_eq!(resp.created_at, 100);
    assert_eq!(resp.status_history.len(), 1);
    assert_eq!(resp.status_history[0].status, Status::Applied);
    assert_eq!(resp.status_history[0].application_id, 1);
}

#[test]
fn fetch_after_create_has_history() {
    let mut store = Store::new();
    store
        .create_application(&request("Acme", "Engineer"), 7, 5)
        .unwrap();
    let resp = store.get_application_with_history(1, 7).unwrap();
    assert!(resp.status_history.len() >= 1);
    let last = resp.status_history.last().unwrap();
    assert_eq!(resp.status, last.status);
}

#[test]
fn history_grows_with_each_change() {
    let mut store = Store::new();
    store
        .create_application(&request("Acme", "Engineer"), 1, 1)
        .unwrap();
    store
        .record_status_change(&status_request(1, Status::Interviewing), 1, 2)
        .unwrap();
    store
        .record_status_change(&status_request(1, Status::Testing), 1, 3)
        .unwrap();
    store
        .record_status_change(&status_request(1, Status::Offered), 1, 4)
        .unwrap();
    let resp = store.get_application_with_history(1, 1).unwrap();
    assert_eq!(resp.status_history.len(), 4);
    let times: Vec<i64> = resp.status_history.iter().map(|s| s.created_at).collect();
    assert_eq!(times, vec![1, 2, 3, 4]);
    let kinds: Vec<Status> = resp.status_history.iter().map(|s| s.status).collect();
    assert_eq!(
        kinds,
        vec![
            Status::Applied,
            Status::Interviewing,
            Status::Testing,
            Status::Offered
        ]
    );
    assert_eq!(resp.status, Status::Offered);
}

#[test]
fn ownership_isolation() {
    let mut store = Store::new();
    store
        .create_application(&request("Acme", "Engineer"), 1, 1)
        .unwrap();
    let fetched = store.get_application_with_history(1, 2);
    assert!(matches!(fetched, Err(ServiceError::NotFound)));
    let recorded = store.record_status_change(&status_request(1, Status::Rejected), 2, 2);
    assert!(matches!(recorded, Err(ServiceError::NotFound)));
    let own = store.get_application_with_history(1, 1).unwrap();
    assert_eq!(own.status_history.len(), 1);
}

#[test]
fn fetch_missing_returns_not_found() {
    let store = Store::new();
    assert!(matches!(
        store.get_application_with_history(1, 1),
        Err(ServiceError::NotFound)
    ));
    assert!(matches!(
        store.get_application_with_history(0, 1),
        Err(ServiceError::NotFound)
    ));
    assert!(matches!(
        store.get_application_with_history(-5, 1),
        Err(ServiceError::NotFound)
    ));
}

#[test]
fn interview_scenario() {
    let mut store = Store::new();
    store
        .create_application(&request("Acme", "Engineer"), 1, 1)
        .unwrap();
    let change = ApplicationStatusRequest {
        application_id: 1,
        status_type: Status::Interviewing,
        test_type: None,
        interview_type: Some(InterviewType::Technical),
        notes: None,
    };
    store.record_status_change(&change, 1, 2).unwrap();
    let resp = store.get_application_with_history(1, 1).unwrap();
    assert_eq!(resp.status_history.len(), 2);
    assert_eq!(resp.status, Status::Interviewing);
    assert_eq!(
        resp.status_history[1].interview_type,
        Some(InterviewType::Technical)
    );
}

#[test]
fn validation_rejects_empty_company() {
    let mut store = Store::new();
    let r = store.create_application(&request("", "Engineer"), 1, 1);
    match r {
        Err(ServiceError::Validation(m)) => assert_eq!(m, "Company name cannot be empty"),
        _ => panic!("expected a validation error"),
    }
    assert!(matches!(
        store.get_application_with_history(1, 1),
        Err(ServiceError::NotFound)
    ));
}

#[test]
fn validation_rejects_empty_position() {
    let mut store = Store::new();
    let r = store.create_application(&request("Acme", ""), 1, 1);
    match r {
        Err(ServiceError::Validation(m)) => assert_eq!(m, "Position cannot be empty"),
        _ => panic!("expected a validation error"),
    }
}

#[test]
fn status_change_response_fields() {
    let mut store = Store::new();
    store
        .create_application(&request("Acme", "Engineer"), 1, 1)
        .unwrap();
    let change = ApplicationStatusRequest {
        application_id: 1,
        status_type: Status::Rejected,
        test_type: None,
        interview_type: None,
        notes: Some("after onsite".to_string()),
    };
    let resp = store.record_status_change(&change, 1, 9).unwrap();
    assert_eq!(resp.application_id, 1);
    assert_eq!(resp.status, Status::Rejected);
    assert_eq!(resp.created_by, 1);
    assert_eq!(resp.created_at, 9);
    assert_eq!(resp.notes.as_deref(), Some("after onsite"));
}

#[test]
fn creation_times_never_go_backwards() {
    let mut store = Store::new();
    store
        .create_application(&request("Acme", "Engineer"), 1, 100)
        .unwrap();
    store
        .create_application(&request("Beta", "Analyst"), 1, 50)
        .unwrap();
    let second = store.get_application_with_history(2, 1).unwrap();
    assert_eq!(second.created_at, 100);
}
