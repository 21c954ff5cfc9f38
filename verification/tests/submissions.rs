use yuri_every_hour_bot::error::Error;
use yuri_every_hour_bot::models::database::Database;
use yuri_every_hour_bot::models::submissions::{
    to_stored_user_id, AddSubmission, Submission, SubmissionDecision, SubmissionHelpers,
    SubmissionIds, SubmissionTable,
};
use yuri_every_hour_bot::time::Timestamp;

const T0: i64 = 1_700_000_000_000_000;

fn at(micros: i64) -> Timestamp {
    Timestamp::from_micros(micros).unwrap()
}

fn form(user_id: u64, artist: &str) -> AddSubmission {
    AddSubmission {
        user_id,
        artist: String::from(artist),
        art_link: String::from("https://example.org/art"),
        additional_information: Some(String::from("more")),
        sample_image_url: None,
    }
}

fn stored(id: i32, user_id: i64, artist: &str, date: i64) -> Submission {
    Submission {
        submission_id: id,
        user_id,
        artist: String::from(artist),
        art_link: String::from("https://example.org/art"),
        additional_information: Some(String::from("more")),
        sample_image_url: None,
        decision: None,
        submission_date: at(date),
        submission_decision_date: None,
    }
}

fn dated(decision: &Submission) -> bool {
    decision.decision.is_some() == decision.submission_decision_date.is_some()
}

#[test]
fn user_ids_wrap_into_the_signed_column() {
    assert_eq!(to_stored_user_id(0), 0);
    assert_eq!(to_stored_user_id(42), 42);
    assert_eq!(to_stored_user_id(i64::MAX as u64), i64::MAX);
    assert_eq!(to_stored_user_id(i64::MAX as u64 + 1), i64::MIN);
    assert_eq!(to_stored_user_id(u64::MAX), -1);
    assert_eq!(to_stored_user_id(u64::MAX - 9), -10);
}

#[test]
fn insert_numbers_the_rows_from_one() {
    let mut table = SubmissionTable::new();
    assert_eq!(table.next_id(), Some(1));
    assert_eq!(table.insert(form(7, "A"), &at(T0)), Ok(stored(1, 7, "A", T0)));
    assert_eq!(table.insert(form(8, "B"), &at(T0 + 1)), Ok(stored(2, 8, "B", T0 + 1)));
    assert_eq!(table.next_id(), Some(3));
    assert_eq!(table.len(), 2);
    assert_eq!(table.get(1), Some(stored(1, 7, "A", T0)));
    assert_eq!(table.get(2), Some(stored(2, 8, "B", T0 + 1)));
    assert_eq!(table.get(3), None);
    assert!(table.contains_id(2));
    assert!(!table.contains_id(0));
}

#[test]
fn inserted_row_is_undecided_and_keeps_every_field() {
    let mut table = SubmissionTable::new();
    let add = AddSubmission {
        user_id: u64::MAX,
        artist: String::from("A"),
        art_link: String::from("L"),
        additional_information: None,
        sample_image_url: Some(String::from("https://example.org/sample.png")),
    };
    let row = table.insert(add, &at(T0)).unwrap();
    assert_eq!(row.submission_id, 1);
    assert_eq!(row.user_id, -1);
    assert_eq!(row.artist, "A");
    assert_eq!(row.art_link, "L");
    assert_eq!(row.additional_information, None);
    assert_eq!(row.sample_image_url.as_deref(), Some("https://example.org/sample.png"));
    assert_eq!(row.decision, None);
    assert_eq!(row.submission_date, at(T0));
    assert_eq!(row.submission_decision_date, None);
}

#[test]
fn decide_by_id_sets_decision_and_date() {
    let mut table = SubmissionTable::new();
    table.insert(form(7, "A"), &at(T0)).unwrap();
    table.insert(form(8, "B"), &at(T0)).unwrap();
    let row = table
        .decide(&SubmissionIds::SubmissionId(2), SubmissionDecision::Approved, &at(T0 + 5))
        .unwrap();
    let mut expected = stored(2, 8, "B", T0);
    expected.decision = Some(SubmissionDecision::Approved);
    expected.submission_decision_date = Some(at(T0 + 5));
    assert_eq!(row, expected);
    assert_eq!(table.get(2), Some(expected));
    assert_eq!(table.get(1), Some(stored(1, 7, "A", T0)));
}

#[test]
fn decide_reports_a_missing_row() {
    let mut table = SubmissionTable::new();
    assert_eq!(
        table.decide(&SubmissionIds::SubmissionId(1), SubmissionDecision::Approved, &at(T0)),
        Err(Error::NotFound)
    );
    table.insert(form(7, "A"), &at(T0)).unwrap();
    assert_eq!(
        table.decide(&SubmissionIds::SubmissionId(2), SubmissionDecision::Rejected, &at(T0)),
        Err(Error::NotFound)
    );
    assert_eq!(
        table.decide(&SubmissionIds::UserId(8), SubmissionDecision::Rejected, &at(T0)),
        Err(Error::NotFound)
    );
    assert_eq!(table.get(1), Some(stored(1, 7, "A", T0)));
}

#[test]
fn decided_row_is_immutable() {
    let mut table = SubmissionTable::new();
    table.insert(form(7, "A"), &at(T0)).unwrap();
    let first = table
        .decide(&SubmissionIds::SubmissionId(1), SubmissionDecision::Rejected, &at(T0 + 1))
        .unwrap();
    assert_eq!(
        table.decide(&SubmissionIds::SubmissionId(1), SubmissionDecision::Approved, &at(T0 + 2)),
        Err(Error::AlreadyDecided)
    );
    assert_eq!(
        table.decide(&SubmissionIds::UserId(7), SubmissionDecision::Approved, &at(T0 + 2)),
        Err(Error::AlreadyDecided)
    );
    assert_eq!(table.get(1), Some(first));
}

#[test]
fn decide_by_user_takes_the_one_open_row() {
    let mut table = SubmissionTable::new();
    table.insert(form(7, "A"), &at(T0)).unwrap();
    table.insert(form(7, "B"), &at(T0)).unwrap();
    table.insert(form(9, "C"), &at(T0)).unwrap();
    assert_eq!(
        table.decide(&SubmissionIds::UserId(7), SubmissionDecision::Approved, &at(T0 + 1)),
        Err(Error::StoreError)
    );
    assert_eq!(table.get(1), Some(stored(1, 7, "A", T0)));
    assert_eq!(table.get(2), Some(stored(2, 7, "B", T0)));
    table.decide(&SubmissionIds::SubmissionId(1), SubmissionDecision::Rejected, &at(T0 + 1)).unwrap();
    let row = table
        .decide(&SubmissionIds::UserId(7), SubmissionDecision::Approved, &at(T0 + 2))
        .unwrap();
    assert_eq!(row.submission_id, 2);
    assert_eq!(row.decision, Some(SubmissionDecision::Approved));
    assert_eq!(row.submission_decision_date, Some(at(T0 + 2)));
    assert_eq!(table.get(3), Some(stored(3, 9, "C", T0)));
}

#[test]
fn selector_matches_by_id_or_member() {
    let row = stored(4, -1, "A", T0);
    assert!(SubmissionIds::SubmissionId(4).matches(&row));
    assert!(!SubmissionIds::SubmissionId(5).matches(&row));
    assert!(SubmissionIds::UserId(u64::MAX).matches(&row));
    assert!(!SubmissionIds::UserId(4).matches(&row));
}

#[test]
fn decision_and_date_go_together_through_every_transition() {
    let mut database = Database::new();
    let mut seed: u64 = 0x9E37_79B9_7F4A_7C15;
    for step in 0..400 {
        seed = seed.wrapping_mul(6364136223846793005).wrapping_add(1442695040888963407);
        let pick = (seed >> 33) % 4;
        let target = ((seed >> 40) % 12) as i32;
        let now = at(T0 + step);
        match pick {
            0 => {
                let row = Submission::add_submission(&mut database, form((seed >> 50) % 3, "A"), &now).unwrap();
                assert!(row.decision.is_none() && row.submission_decision_date.is_none());
            }
            1 => {
                if let Ok(row) = Submission::approve_submission(&mut database, SubmissionIds::SubmissionId(target), &now) {
                    assert_eq!(row.decision, Some(SubmissionDecision::Approved));
                    assert_eq!(row.submission_decision_date, Some(now));
                }
            }
            2 => {
                if let Ok(row) = Submission::reject_submission(&mut database, SubmissionIds::SubmissionId(target), &now) {
                    assert_eq!(row.decision, Some(SubmissionDecision::Rejected));
                    assert_eq!(row.submission_decision_date, Some(now));
                }
            }
            _ => {
                let _ = Submission::approve_submission(&mut database, SubmissionIds::UserId((seed >> 50) % 3), &now);
            }
        }
        for id in 1..=database.submissions.len() as i32 {
            let row = database.submissions.get(id).unwrap();
            assert!(dated(&row));
        }
    }
}

#[test]
fn store_approves_and_rejects() {
    let mut database = Database::new();
    assert_eq!(
        Submission::add_submission(&mut database, form(7, "A"), &at(T0)),
        Ok(stored(1, 7, "A", T0))
    );
    Submission::add_submission(&mut database, form(8, "B"), &at(T0)).unwrap();
    let approved = Submission::approve_submission(&mut database, SubmissionIds::SubmissionId(1), &at(T0 + 3)).unwrap();
    assert_eq!(approved.decision, Some(SubmissionDecision::Approved));
    assert_eq!(approved.submission_decision_date, Some(at(T0 + 3)));
    let rejected = Submission::reject_submission(&mut database, SubmissionIds::UserId(8), &at(T0 + 4)).unwrap();
    assert_eq!(rejected.submission_id, 2);
    assert_eq!(rejected.decision, Some(SubmissionDecision::Rejected));
    assert_eq!(rejected.submission_decision_date, Some(at(T0 + 4)));
    assert_eq!(
        Submission::reject_submission(&mut database, SubmissionIds::SubmissionId(1), &at(T0 + 5)),
        Err(Error::AlreadyDecided)
    );
    assert_eq!(
        Submission::approve_submission(&mut database, SubmissionIds::SubmissionId(3), &at(T0 + 5)),
        Err(Error::NotFound)
    );
    assert_eq!(database.submissions.get(1), Some(approved));
}

#[test]
fn default_submission_is_empty_and_undecided() {
    let row = Submission::default();
    assert_eq!(row.submission_id, 0);
    assert_eq!(row.user_id, 0);
    assert_eq!(row.artist, "");
    assert_eq!(row.art_link, "");
    assert_eq!(row.additional_information, None);
    assert_eq!(row.sample_image_url, None);
    assert_eq!(row.decision, None);
    assert_eq!(row.submission_decision_date, None);
    assert!(row.submission_date.micros() > 0);
}

#[test]
fn clone_keeps_every_field() {
    let mut row = stored(4, 5, "A", T0);
    row.decision = Some(SubmissionDecision::Rejected);
    row.submission_decision_date = Some(at(T0 + 9));
    row.sample_image_url = Some(String::from("u"));
    assert_eq!(row.clone(), row);
}
