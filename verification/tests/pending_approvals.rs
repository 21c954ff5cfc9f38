use yuri_every_hour_bot::error::Error;
use yuri_every_hour_bot::models::database::Database;
use yuri_every_hour_bot::models::pending_approvals::{
    alive_rows, copy_rows, due_rows, first_selected, fresh_rows, without, AddPendingApproval,
    PendingApproval, PendingApprovalHelpers, PendingApprovalTable, RemovePendingApproval,
};
use yuri_every_hour_bot::models::submissions::{AddSubmission, Submission, SubmissionHelpers};
use yuri_every_hour_bot::time::{Timestamp, APPROVAL_TTL};

const T0: i64 = 1_700_000_000_000_000;
const SECOND: i64 = 1_000_000;
const HOUR: i64 = 3_600_000_000;

fn at(micros: i64) -> Timestamp {
    Timestamp::from_micros(micros).unwrap()
}

fn row(submission_id: i32, message_id: i64, date: i64) -> PendingApproval {
    PendingApproval { submission_id, message_id, date: at(date) }
}

fn add(submission_id: i32, message_id: u64) -> AddPendingApproval {
    AddPendingApproval { submission_id, message_id }
}

fn submission(user_id: u64) -> AddSubmission {
    AddSubmission {
        user_id,
        artist: String::from("artist"),
        art_link: String::from("link"),
        additional_information: None,
        sample_image_url: None,
    }
}

#[test]
fn swept_one_second_past_the_day_and_kept_one_second_before() {
    let now = at(T0);
    let past = row(1, 10, T0 - 24 * HOUR - SECOND);
    let within = row(2, 20, T0 - 23 * HOUR - 59 * 60 * SECOND - 59 * SECOND);
    assert!(past.is_stale(&now, APPROVAL_TTL));
    assert!(!within.is_stale(&now, APPROVAL_TTL));

    let mut table = PendingApprovalTable::new();
    table.insert(&add(1, 10), &at(T0 - 24 * HOUR - SECOND)).unwrap();
    table.insert(&add(2, 20), &at(T0 - 23 * HOUR - 59 * 60 * SECOND - 59 * SECOND)).unwrap();
    let swept = table.sweep(&now, APPROVAL_TTL);
    assert_eq!(swept, vec![past]);
    assert_eq!(table.rows(), vec![within]);
}

#[test]
fn sweep_is_strict_at_the_boundary() {
    let now = at(T0);
    assert!(!row(1, 10, T0 - APPROVAL_TTL).is_stale(&now, APPROVAL_TTL));
    assert!(row(1, 10, T0 - APPROVAL_TTL - 1).is_stale(&now, APPROVAL_TTL));
    assert!(row(1, 10, T0 - 1).is_stale(&now, 0));
    assert!(!row(1, 10, T0).is_stale(&now, 0));
    assert!(row(1, 10, T0).is_stale(&now, -1));
    assert!(!row(1, 10, T0 - 5).is_stale(&now, i64::MAX));
    assert!(row(1, 10, T0 - 5).is_stale(&now, i64::MIN));
}

#[test]
fn countdown_runs_out_after_a_full_day() {
    let opened = row(1, 10, T0);
    assert!(!opened.is_expired(&at(T0)));
    assert!(!opened.is_expired(&at(T0 + APPROVAL_TTL - 1)));
    assert!(opened.is_expired(&at(T0 + APPROVAL_TTL)));
    assert!(opened.is_expired(&at(T0 + APPROVAL_TTL + 1)));
    assert!(!opened.is_expired(&at(T0 - 3 * APPROVAL_TTL)));
}

#[test]
fn remaining_ttl_is_what_is_left_of_the_day() {
    let opened = row(1, 10, T0);
    assert_eq!(opened.remaining_ttl(&at(T0)), 86_400_000_000);
    assert_eq!(opened.remaining_ttl(&at(T0 + 10 * HOUR)), 14 * 3_600_000_000);
    assert_eq!(opened.remaining_ttl(&at(T0 + APPROVAL_TTL - 1)), 1);
    assert_eq!(opened.remaining_ttl(&at(T0 + APPROVAL_TTL)), 0);
    assert_eq!(opened.remaining_ttl(&at(T0 + 2 * APPROVAL_TTL)), 0);
    assert_eq!(opened.remaining_ttl(&at(T0 - HOUR)), 25 * 3_600_000_000);
}

#[test]
fn selector_matches_by_either_key() {
    let opened = row(3, 30, T0);
    assert!(RemovePendingApproval::SubmissionId(3).matches(&opened));
    assert!(!RemovePendingApproval::SubmissionId(4).matches(&opened));
    assert!(RemovePendingApproval::MessageId(30).matches(&opened));
    assert!(!RemovePendingApproval::MessageId(3).matches(&opened));
    assert!(!RemovePendingApproval::MessageId(u64::MAX).matches(&row(3, -1, T0)));
}

#[test]
fn insert_appends_the_row() {
    let mut table = PendingApprovalTable::new();
    assert_eq!(table.len(), 0);
    assert_eq!(table.insert(&add(1, 10), &at(T0)), Ok(row(1, 10, T0)));
    assert_eq!(table.insert(&add(2, 20), &at(T0 + 1)), Ok(row(2, 20, T0 + 1)));
    assert_eq!(table.rows(), vec![row(1, 10, T0), row(2, 20, T0 + 1)]);
    assert_eq!(table.len(), 2);
}

#[test]
fn insert_refuses_a_taken_key() {
    let mut table = PendingApprovalTable::new();
    table.insert(&add(1, 10), &at(T0)).unwrap();
    assert_eq!(table.insert(&add(1, 11), &at(T0)), Err(Error::DuplicateApproval));
    assert_eq!(table.insert(&add(2, 10), &at(T0)), Err(Error::DuplicateApproval));
    assert_eq!(table.insert(&add(1, 10), &at(T0)), Err(Error::DuplicateApproval));
    assert_eq!(table.rows(), vec![row(1, 10, T0)]);
}

#[test]
fn insert_refuses_a_message_id_beyond_the_column() {
    let mut table = PendingApprovalTable::new();
    assert_eq!(table.insert(&add(1, i64::MAX as u64 + 1), &at(T0)), Err(Error::StoreError));
    assert_eq!(table.insert(&add(1, u64::MAX), &at(T0)), Err(Error::StoreError));
    assert_eq!(table.len(), 0);
    assert_eq!(
        table.insert(&add(1, i64::MAX as u64), &at(T0)),
        Ok(row(1, i64::MAX, T0))
    );
}

#[test]
fn check_insert_changes_nothing() {
    let mut table = PendingApprovalTable::new();
    table.insert(&add(1, 10), &at(T0)).unwrap();
    assert_eq!(table.check_insert(&add(2, 20), &at(T0)), Ok(row(2, 20, T0)));
    assert_eq!(table.check_insert(&add(1, 20), &at(T0)), Err(Error::DuplicateApproval));
    assert_eq!(table.rows(), vec![row(1, 10, T0)]);
}

#[test]
fn remove_returns_the_row_once() {
    let mut table = PendingApprovalTable::new();
    table.insert(&add(1, 10), &at(T0)).unwrap();
    table.insert(&add(2, 20), &at(T0)).unwrap();
    table.insert(&add(3, 30), &at(T0)).unwrap();
    assert_eq!(table.remove(&RemovePendingApproval::MessageId(20)), Ok(row(2, 20, T0)));
    assert_eq!(table.rows(), vec![row(1, 10, T0), row(3, 30, T0)]);
    assert_eq!(table.remove(&RemovePendingApproval::MessageId(20)), Err(Error::NotFound));
    assert_eq!(table.remove(&RemovePendingApproval::SubmissionId(2)), Err(Error::NotFound));
    assert_eq!(table.rows(), vec![row(1, 10, T0), row(3, 30, T0)]);
    assert_eq!(table.remove(&RemovePendingApproval::SubmissionId(1)), Ok(row(1, 10, T0)));
    assert_eq!(table.rows(), vec![row(3, 30, T0)]);
}

#[test]
fn remove_from_the_empty_relation_finds_nothing() {
    let mut table = PendingApprovalTable::new();
    assert_eq!(table.remove(&RemovePendingApproval::SubmissionId(1)), Err(Error::NotFound));
    assert_eq!(table.remove(&RemovePendingApproval::MessageId(u64::MAX)), Err(Error::NotFound));
}

#[test]
fn find_leaves_the_row_in_place() {
    let mut table = PendingApprovalTable::new();
    table.insert(&add(1, 10), &at(T0)).unwrap();
    assert_eq!(table.find(&RemovePendingApproval::SubmissionId(1)), Ok(row(1, 10, T0)));
    assert_eq!(table.find(&RemovePendingApproval::MessageId(11)), Err(Error::NotFound));
    assert_eq!(table.len(), 1);
}

#[test]
fn a_removed_key_can_be_inserted_again() {
    let mut table = PendingApprovalTable::new();
    table.insert(&add(1, 10), &at(T0)).unwrap();
    table.remove(&RemovePendingApproval::SubmissionId(1)).unwrap();
    assert_eq!(table.insert(&add(1, 10), &at(T0 + 5)), Ok(row(1, 10, T0 + 5)));
}

#[test]
fn expire_due_takes_the_rows_at_their_deadline() {
    let mut table = PendingApprovalTable::new();
    table.insert(&add(1, 10), &at(T0 - APPROVAL_TTL - 1)).unwrap();
    table.insert(&add(2, 20), &at(T0 - APPROVAL_TTL)).unwrap();
    table.insert(&add(3, 30), &at(T0 - APPROVAL_TTL + 1)).unwrap();
    let due = table.expire_due(&at(T0));
    assert_eq!(due, vec![row(1, 10, T0 - APPROVAL_TTL - 1), row(2, 20, T0 - APPROVAL_TTL)]);
    assert_eq!(table.rows(), vec![row(3, 30, T0 - APPROVAL_TTL + 1)]);
}

#[test]
fn rows_are_split_in_their_order() {
    let rows = vec![row(1, 10, T0 - 30 * HOUR), row(2, 20, T0), row(1, 10, T0 - 30 * HOUR), row(3, 30, T0 - 24 * HOUR)];
    assert_eq!(copy_rows(&rows), rows);
    assert_eq!(without(&rows, &row(1, 10, T0 - 30 * HOUR)), vec![row(2, 20, T0), row(3, 30, T0 - 24 * HOUR)]);
    assert_eq!(without(&rows, &row(1, 10, T0)), rows);
    assert_eq!(fresh_rows(&rows, &at(T0), APPROVAL_TTL), vec![row(2, 20, T0), row(3, 30, T0 - 24 * HOUR)]);
    assert_eq!(alive_rows(&rows, &at(T0)), vec![row(2, 20, T0)]);
    assert_eq!(
        due_rows(&rows, &at(T0)),
        vec![row(1, 10, T0 - 30 * HOUR), row(1, 10, T0 - 30 * HOUR), row(3, 30, T0 - 24 * HOUR)]
    );

    assert_eq!(first_selected(&rows, &RemovePendingApproval::SubmissionId(1)), Ok(rows[0]));
    assert_eq!(first_selected(&rows, &RemovePendingApproval::MessageId(40)), Err(Error::NotFound));
}

#[test]
fn store_refuses_an_approval_without_submission() {
    let mut database = Database::new();
    assert_eq!(
        PendingApproval::add_pending_approval(&mut database, add(1, 10), &at(T0)),
        Err(Error::StoreError)
    );
    Submission::add_submission(&mut database, submission(7), &at(T0)).unwrap();
    assert_eq!(
        PendingApproval::add_pending_approval(&mut database, add(2, 10), &at(T0)),
        Err(Error::StoreError)
    );
    assert_eq!(database.pending_approvals.len(), 0);
    assert_eq!(
        PendingApproval::add_pending_approval(&mut database, add(1, 10), &at(T0 + 1)),
        Ok(row(1, 10, T0 + 1))
    );
    assert_eq!(database.pending_approvals.rows(), vec![row(1, 10, T0 + 1)]);
}

#[test]
fn store_reports_a_taken_key_before_a_missing_submission() {
    let mut database = Database::new();
    Submission::add_submission(&mut database, submission(7), &at(T0)).unwrap();
    PendingApproval::add_pending_approval(&mut database, add(1, 10), &at(T0)).unwrap();
    assert_eq!(
        PendingApproval::add_pending_approval(&mut database, add(9, 10), &at(T0)),
        Err(Error::DuplicateApproval)
    );
    assert_eq!(
        PendingApproval::add_pending_approval(&mut database, add(1, 11), &at(T0)),
        Err(Error::DuplicateApproval)
    );
    assert_eq!(
        PendingApproval::add_pending_approval(&mut database, add(9, u64::MAX), &at(T0)),
        Err(Error::StoreError)
    );
}

#[test]
fn store_removes_and_sweeps() {
    let mut database = Database::new();
    for user in 0..3 {
        Submission::add_submission(&mut database, submission(user), &at(T0)).unwrap();
    }
    PendingApproval::add_pending_approval(&mut database, add(1, 10), &at(T0 - 25 * HOUR)).unwrap();
    PendingApproval::add_pending_approval(&mut database, add(2, 20), &at(T0 - HOUR)).unwrap();
    PendingApproval::add_pending_approval(&mut database, add(3, 30), &at(T0 - 48 * HOUR)).unwrap();
    assert_eq!(
        PendingApproval::remove_expired_approvals(&mut database, &at(T0), APPROVAL_TTL),
        Some(vec![row(1, 10, T0 - 25 * HOUR), row(3, 30, T0 - 48 * HOUR)])
    );
    assert_eq!(PendingApproval::remove_expired_approvals(&mut database, &at(T0), APPROVAL_TTL), None);
    assert_eq!(
        PendingApproval::remove_pending_approval(&mut database, RemovePendingApproval::MessageId(20)),
        Ok(row(2, 20, T0 - HOUR))
    );
    assert_eq!(
        PendingApproval::remove_pending_approval(&mut database, RemovePendingApproval::MessageId(20)),
        Err(Error::NotFound)
    );
    assert_eq!(database.pending_approvals.len(), 0);
    assert_eq!(database.submissions.len(), 3);
}
