use job_tracker::domain::Status;
use job_tracker::payloads::{ApplicationFilter, ApplicationRequest, ApplicationStatusRequest};
use job_tracker::store::Store;

fn request(company: &str, position: &str) -> ApplicationRequest {
    ApplicationRequest {
        company: company.to_string(),
        position: position.to_string(),
        website: None,
        application_type: None,
    }
}

fn status_request(application_id: i64, status_type: Status) -> ApplicationStatusRequest {
    ApplicationStatusRequest {
        application_id,
        status_type,
        test_type: None,
        interview_type: None,
        notes: None,
    }
}

fn no_filter() -> ApplicationFilter {
    ApplicationFilter {
        search: None,
        status: None,
        from: None,
        to: None,
        page: None,
        size: None,
    }
}

#[test]
fn list_newest_first() {
    let mut store = Store::new();
    store
        .create_application(&request("First", "A"), 1, 1)
        .unwrap();
    store
        .create_application(&request("Second", "B"), 1, 2)
        .unwrap();
    store
        .create_application(&request("Third", "C"), 1, 3)
        .unwrap();
    let (items, total) = store.list_applications(&no_filter(), 1);
    assert_eq!(total, 3);
    let ids: Vec<i64> = items.iter().map(|r| r.id).collect();
    assert_eq!(ids, vec![3, 2, 1]);
}

#[test]
fn ties_broken_by_id_descending() {
    let mut store = Store::new();
    store
        .create_application(&request("First", "A"), 1, 5)
        .unwrap();
    store
        .create_application(&request("Second", "B"), 1, 5)
        .unwrap();
    let (items, _) = store.list_applications(&no_filter(), 1);
    let ids: Vec<i64> = items.iter().map(|r| r.id).collect();
    assert_eq!(ids, vec![2, 1]);
}

#[test]
fn list_scoped_to_owner() {
    let mut store = Store::new();
    store
        .create_application(&request("Mine", "A"), 1, 1)
        .unwrap();
    store
        .create_application(&request("Theirs", "B"), 2, 2)
        .unwrap();
    let (mine, mine_total) = store.list_applications(&no_filter(), 1);
    assert_eq!(mine_total, 1);
    assert_eq!(mine[0].company, "Mine");
    let (theirs, theirs_total) = store.list_applications(&no_filter(), 2);
    assert_eq!(theirs_total, 1);
    assert_eq!(theirs[0].company, "Theirs");
}

#[test]
fn search_is_case_insensitive() {
    let mut store = Store::new();
    store
        .create_application(&request("Acme Corp", "Engineer"), 1, 1)
        .unwrap();
    store
        .create_application(&request("Beta", "Manager"), 1, 2)
        .unwrap();
    let mut filter = no_filter();
    filter.search = Some("acme".to_string());
    let (items, total) = store.list_applications(&filter, 1);
    assert_eq!(total, 1);
    assert_eq!(items[0].company, "Acme Corp");
    filter.search = Some("CORP".to_string());
    let (_, total) = store.list_applications(&filter, 1);
    assert_eq!(total, 1);
    filter.search = Some("manag".to_string());
    let (items, total) = store.list_applications(&filter, 1);
    assert_eq!(total, 1);
    assert_eq!(items[0].position, "Manager");
    filter.search = Some("zz".to_string());
    let (items, total) = store.list_applications(&filter, 1);
    assert_eq!(total, 0);
    assert!(items.is_empty());
}

#[test]
fn status_filter_matches_current_status_only() {
    let mut store = Store::new();
    store
        .create_application(&request("StillTalking", "A"), 1, 1)
        .unwrap();
    store
        .record_status_change(&status_request(1, Status::Interviewing), 1, 2)
        .unwrap();
    store
        .create_application(&request("TurnedDown", "B"), 1, 3)
        .unwrap();
    store
        .record_status_change(&status_request(2, Status::Interviewing), 1, 4)
        .unwrap();
    store
        .record_status_change(&status_request(2, Status::Rejected), 1, 5)
        .unwrap();
    let mut filter = no_filter();
    filter.status = Some(Status::Interviewing);
    let (items, total) = store.list_applications(&filter, 1);
    assert_eq!(total, 1);
    assert_eq!(items[0].company, "StillTalking");
    filter.status = Some(Status::Rejected);
    let (items, total) = store.list_applications(&filter, 1);
    assert_eq!(total, 1);
    assert_eq!(items[0].company, "TurnedDown");
    filter.status = Some(Status::Offered);
    let (_, total) = store.list_applications(&filter, 1);
    assert_eq!(total, 0);
}

#[test]
fn date_bounds_are_inclusive() {
    let mut store = Store::new();
    store.create_application(&request("Ten", "A"), 1, 10).unwrap();
    store
        .create_application(&request("Twenty", "B"), 1, 20)
        .unwrap();
    store
        .create_application(&request("Thirty", "C"), 1, 30)
        .unwrap();
    let mut filter = no_filter();
    filter.from = Some(20);
    let (_, total) = store.list_applications(&filter, 1);
    assert_eq!(total, 2);
    filter.from = None;
    filter.to = Some(20);
    let (_, total) = store.list_applications(&filter, 1);
    assert_eq!(total, 2);
    filter.from = Some(15);
    filter.to = Some(25);
    let (items, total) = store.list_applications(&filter, 1);
    assert_eq!(total, 1);
    assert_eq!(items[0].company, "Twenty");
}

#[test]
fn pages_partition_the_listing() {
    let mut store = Store::new();
    for k in 0..5 {
        store
            .create_application(&request(&format!("Company{}", k), "Role"), 1, k)
            .unwrap();
    }
    let mut filter = no_filter();
    filter.size = Some(2);
    let mut gathered: Vec<i64> = Vec::new();
    let mut totals: Vec<usize> = Vec::new();
    for page in 1..=3 {
        filter.page = Some(page);
        let (items, total) = store.list_applications(&filter, 1);
        totals.push(total);
        gathered.extend(items.iter().map(|r| r.id));
    }
    assert_eq!(totals, vec![5, 5, 5]);
    let (all, _) = store.list_applications(&no_filter(), 1);
    let all_ids: Vec<i64> = all.iter().map(|r| r.id).collect();
    assert_eq!(gathered, all_ids);
    let mut sorted = gathered.clone();
    sorted.sort();
    sorted.dedup();
    assert_eq!(sorted.len(), 5);
}

#[test]
fn page_defaults() {
    let mut store = Store::new();
    for k in 0..12 {
        store
            .create_application(&request(&format!("Company{}", k), "Role"), 1, k)
            .unwrap();
    }
    let (items, total) = store.list_applications(&no_filter(), 1);
    assert_eq!(total, 12);
    assert_eq!(items.len(), 10);
    let mut filter = no_filter();
    filter.page = Some(0);
    filter.size = Some(0);
    let (clamped, total) = store.list_applications(&filter, 1);
    assert_eq!(total, 12);
    assert_eq!(clamped.len(), 10);
    let first_ids: Vec<i64> = items.iter().map(|r| r.id).collect();
    let clamped_ids: Vec<i64> = clamped.iter().map(|r| r.id).collect();
    assert_eq!(first_ids, clamped_ids);
    filter.page = Some(2);
    filter.size = None;
    let (rest, _) = store.list_applications(&filter, 1);
    assert_eq!(rest.len(), 2);
}

#[test]
fn page_beyond_end_is_empty() {
    let mut store = Store::new();
    for k in 0..5 {
        store
            .create_application(&request(&format!("Company{}", k), "Role"), 1, k)
            .unwrap();
    }
    let mut filter = no_filter();
    filter.page = Some(100);
    filter.size = Some(2);
    let (items, total) = store.list_applications(&filter, 1);
    assert_eq!(total, 5);
    assert!(items.is_empty());
}

#[test]
fn empty_store_lists_nothing() {
    let store = Store::new();
    let (items, total) = store.list_applications(&no_filter(), 1);
    assert_eq!(total, 0);
    assert!(items.is_empty());
}

#[test]
fn listed_items_carry_history() {
    let mut store = Store::new();
    store
        .create_application(&request("Acme", "Engineer"), 1, 1)
        .unwrap();
    store
        .record_status_change(&status_request(1, Status::Offered), 1, 2)
        .unwrap();
    let (items, _) = store.list_applications(&no_filter(), 1);
    assert_eq!(items[0].status_history.len(), 2);
    assert_eq!(items[0].status, Status::Offered);
}
