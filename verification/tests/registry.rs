use yuri_every_hour_bot::discord::data::{PendingApprovalsHelpers, YuriData};
use yuri_every_hour_bot::error::Error;
use yuri_every_hour_bot::models::database::Database;
use yuri_every_hour_bot::models::pending_approvals::{
    AddPendingApproval, PendingApproval, PendingApprovalHelpers, RemovePendingApproval,
};
use yuri_every_hour_bot::models::submissions::{AddSubmission, Submission, SubmissionHelpers};
use yuri_every_hour_bot::time::{Timestamp, APPROVAL_TTL};

const T0: i64 = 1_700_000_000_000_000;
const HOUR: i64 = 3_600_000_000;

fn at(micros: i64) -> Timestamp {
    Timestamp::from_micros(micros).unwrap()
}

fn row(submission_id: i32, message_id: i64, date: i64) -> PendingApproval {
    PendingApproval { submission_id, message_id, date: at(date) }
}

fn add(submission_id: i32, message_id: u64) -> AddPendingApproval {
    AddPendingApproval { submission_id, message_id }
}

fn store_with_submissions(count: u64) -> Database {
    let mut database = Database::new();
    for user in 0..count {
        let form = AddSubmission {
            user_id: user,
            artist: String::from("A"),
            art_link: String::from("L"),
            additional_information: None,
            sample_image_url: None,
        };
        Submission::add_submission(&mut database, form, &at(T0)).unwrap();
    }
    database
}

fn sorted(mut rows: Vec<PendingApproval>) -> Vec<PendingApproval> {
    rows.sort_by_key(|row| row.submission_id);
    rows
}

#[test]
fn add_reaches_store_and_cache() {
    let mut database = store_with_submissions(2);
    let mut data = YuriData::new();
    assert_eq!(data.add_pending_approval(&mut database, add(1, 10), &at(T0)), Ok(row(1, 10, T0)));
    assert_eq!(data.add_pending_approval(&mut database, add(2, 20), &at(T0 + 1)), Ok(row(2, 20, T0 + 1)));
    assert_eq!(data.pending_approvals(), vec![row(1, 10, T0), row(2, 20, T0 + 1)]);
    assert_eq!(database.pending_approvals.rows(), data.pending_approvals());
    assert_eq!(data.len(), 2);
}

#[test]
fn refused_add_leaves_store_and_cache_alone() {
    let mut database = store_with_submissions(2);
    let mut data = YuriData::new();
    data.add_pending_approval(&mut database, add(1, 10), &at(T0)).unwrap();
    assert_eq!(data.add_pending_approval(&mut database, add(1, 11), &at(T0)), Err(Error::DuplicateApproval));
    assert_eq!(data.add_pending_approval(&mut database, add(2, 10), &at(T0)), Err(Error::DuplicateApproval));
    assert_eq!(data.add_pending_approval(&mut database, add(3, 30), &at(T0)), Err(Error::StoreError));
    assert_eq!(data.add_pending_approval(&mut database, add(2, u64::MAX), &at(T0)), Err(Error::StoreError));
    assert_eq!(data.pending_approvals(), vec![row(1, 10, T0)]);
    assert_eq!(database.pending_approvals.rows(), vec![row(1, 10, T0)]);
}

#[test]
fn remove_evicts_from_store_and_cache() {
    let mut database = store_with_submissions(3);
    let mut data = YuriData::new();
    for id in 1..=3 {
        data.add_pending_approval(&mut database, add(id, 10 * id as u64), &at(T0)).unwrap();
    }
    assert_eq!(
        data.remove_pending_approval(&mut database, RemovePendingApproval::SubmissionId(2)),
        Ok(row(2, 20, T0))
    );
    assert_eq!(data.pending_approvals(), vec![row(1, 10, T0), row(3, 30, T0)]);
    assert_eq!(database.pending_approvals.rows(), vec![row(1, 10, T0), row(3, 30, T0)]);
    assert_eq!(
        data.remove_pending_approval(&mut database, RemovePendingApproval::MessageId(20)),
        Err(Error::NotFound)
    );
    assert_eq!(data.pending_approvals(), vec![row(1, 10, T0), row(3, 30, T0)]);
}

#[test]
fn removal_the_store_refuses_leaves_a_stale_cache_alone() {
    let mut database = store_with_submissions(1);
    let mut data = YuriData::new();
    data.add_pending_approval(&mut database, add(1, 10), &at(T0)).unwrap();
    PendingApproval::remove_pending_approval(&mut database, RemovePendingApproval::SubmissionId(1)).unwrap();
    assert_eq!(
        data.remove_pending_approval(&mut database, RemovePendingApproval::SubmissionId(1)),
        Err(Error::NotFound)
    );
    assert_eq!(data.pending_approvals(), vec![row(1, 10, T0)]);
}

#[test]
fn fresh_cache_loads_what_was_inserted_and_not_removed() {
    let mut database = store_with_submissions(5);
    let mut writer = YuriData::new();
    for id in 1..=5 {
        writer.add_pending_approval(&mut database, add(id, 100 + id as u64), &at(T0 + id as i64)).unwrap();
    }
    writer.remove_pending_approval(&mut database, RemovePendingApproval::SubmissionId(2)).unwrap();
    writer.remove_pending_approval(&mut database, RemovePendingApproval::MessageId(104)).unwrap();
    let _ = writer.add_pending_approval(&mut database, add(1, 999), &at(T0));

    let mut fresh = YuriData::new();
    fresh.populate_pending_approvals(&database);
    assert_eq!(
        sorted(fresh.pending_approvals()),
        vec![row(1, 101, T0 + 1), row(3, 103, T0 + 3), row(5, 105, T0 + 5)]
    );
    assert_eq!(fresh.pending_approvals(), writer.pending_approvals());
}

#[test]
fn populate_replaces_what_was_cached() {
    let mut database = store_with_submissions(2);
    let mut data = YuriData::new();
    data.remember(row(9, 90, T0));
    data.populate_pending_approvals(&database);
    assert_eq!(data.pending_approvals(), vec![]);
    PendingApproval::add_pending_approval(&mut database, add(1, 10), &at(T0)).unwrap();
    data.populate_pending_approvals(&database);
    data.populate_pending_approvals(&database);
    assert_eq!(data.pending_approvals(), vec![row(1, 10, T0)]);
}

#[test]
fn sweep_clears_store_and_cache() {
    let mut database = store_with_submissions(3);
    let mut data = YuriData::new();
    data.add_pending_approval(&mut database, add(1, 10), &at(T0 - 25 * HOUR)).unwrap();
    data.add_pending_approval(&mut database, add(2, 20), &at(T0 - 24 * HOUR)).unwrap();
    data.add_pending_approval(&mut database, add(3, 30), &at(T0 - HOUR)).unwrap();
    assert_eq!(
        data.remove_expired_approvals(&mut database, &at(T0), APPROVAL_TTL),
        Some(vec![row(1, 10, T0 - 25 * HOUR)])
    );
    assert_eq!(data.pending_approvals(), vec![row(2, 20, T0 - 24 * HOUR), row(3, 30, T0 - HOUR)]);
    assert_eq!(database.pending_approvals.rows(), data.pending_approvals());
    assert_eq!(data.remove_expired_approvals(&mut database, &at(T0), APPROVAL_TTL), None);
    assert_eq!(
        data.remove_expired_approvals(&mut database, &at(T0), 0),
        Some(vec![row(2, 20, T0 - 24 * HOUR), row(3, 30, T0 - HOUR)])
    );
    assert_eq!(data.len(), 0);
}

#[test]
fn cache_finds_by_either_key() {
    let mut data = YuriData::new();
    data.remember(row(1, 10, T0));
    data.remember(row(2, 20, T0));
    assert_eq!(data.find(&RemovePendingApproval::MessageId(20)), Ok(row(2, 20, T0)));
    assert_eq!(data.find(&RemovePendingApproval::SubmissionId(1)), Ok(row(1, 10, T0)));
    assert_eq!(data.find(&RemovePendingApproval::SubmissionId(3)), Err(Error::NotFound));
    assert_eq!(data.find(&RemovePendingApproval::MessageId(u64::MAX)), Err(Error::NotFound));
}

#[test]
fn cache_forgets_equal_entries_only() {
    let mut data = YuriData::new();
    data.remember(row(1, 10, T0));
    data.remember(row(2, 20, T0));
    data.remember(row(1, 10, T0));
    data.forget(&row(1, 10, T0 + 1));
    assert_eq!(data.len(), 3);
    data.forget(&row(1, 10, T0));
    assert_eq!(data.pending_approvals(), vec![row(2, 20, T0)]);
    data.replace(vec![row(5, 50, T0 - APPROVAL_TTL), row(6, 60, T0 - APPROVAL_TTL - 1), row(7, 70, T0)]);
    data.forget_stale(&at(T0), APPROVAL_TTL);
    assert_eq!(data.pending_approvals(), vec![row(5, 50, T0 - APPROVAL_TTL), row(7, 70, T0)]);
    data.forget_due(&at(T0));
    assert_eq!(data.pending_approvals(), vec![row(7, 70, T0)]);
}
