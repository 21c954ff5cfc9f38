//! Submissions: the rows, their decision, and the relation that holds them.

use crate::error::Error;
use crate::models::database::Database;
use crate::time::Timestamp;
use vstd::prelude::*;

verus! {

/// The verdict of the moderation team on a submission.
#[derive(Clone, Copy, Debug, PartialEq, Eq, Structural)]
pub enum SubmissionDecision {
    Approved,
    Rejected,
}

/// A proposal of a member, as the store holds it.
#[derive(Debug, PartialEq, Eq)]
pub struct Submission {
    pub submission_id: i32,
    pub user_id: i64,
    pub artist: String,
    pub art_link: String,
    pub additional_information: Option<String>,
    pub sample_image_url: Option<String>,
    pub decision: Option<SubmissionDecision>,
    pub submission_date: Timestamp,
    pub submission_decision_date: Option<Timestamp>,
}

/// What a member hands in.
#[derive(Debug, PartialEq, Eq)]
pub struct AddSubmission {
    pub user_id: u64,
    pub artist: String,
    pub art_link: String,
    pub additional_information: Option<String>,
    pub sample_image_url: Option<String>,
}

/// Names submissions by their id or by the member who handed them in.
#[derive(Clone, Copy, Debug, PartialEq, Eq)]
pub enum SubmissionIds {
    SubmissionId(i32),
    UserId(u64),
}

/// A member's id as the signed column of the store holds it: ids above the column's range
/// wrap around.
pub open spec fn stored_user_id(user_id: u64) -> i64 {
    if user_id <= i64::MAX {
        user_id as i64
    } else {
        (user_id - 0x1_0000_0000_0000_0000) as i64
    }
}

/// A member's id as the signed column of the store holds it.
pub fn to_stored_user_id(user_id: u64) -> (stored: i64)
    ensures
        stored == stored_user_id(user_id),
{
    if user_id <= i64::MAX as u64 {
        user_id as i64
    } else {
        let low: u64 = user_id - 0x8000_0000_0000_0000;
        (low as i64) + i64::MIN
    }
}

fn copy_text(text: &Option<String>) -> (copy: Option<String>)
    ensures
        copy == *text,
{
    match text {
        Some(text) => Some(text.clone()),
        None => None,
    }
}

impl Clone for Submission {
    fn clone(&self) -> (copy: Submission)
        ensures
            copy == *self,
    {
        Submission {
            submission_id: self.submission_id,
            user_id: self.user_id,
            artist: self.artist.clone(),
            art_link: self.art_link.clone(),
            additional_information: copy_text(&self.additional_information),
            sample_image_url: copy_text(&self.sample_image_url),
            decision: self.decision,
            submission_date: self.submission_date,
            submission_decision_date: self.submission_decision_date,
        }
    }
}

impl Default for Submission {
    /// An undecided submission without content, dated now.
    fn default() -> (submission: Submission)
        ensures
            submission.submission_id == 0,
            submission.user_id == 0,
            submission.artist@ == Seq::<char>::empty(),
            submission.art_link@ == Seq::<char>::empty(),
            submission.additional_information is None,
            submission.sample_image_url is None,
            submission.decision is None,
            submission.submission_decision_date is None,
            submission.submission_date@ >= 0,
            submission.consistent(),
    {
        Submission {
            submission_id: 0,
            user_id: 0,
            artist: String::new(),
            art_link: String::new(),
            additional_information: None,
            sample_image_url: None,
            decision: None,
            submission_date: Timestamp::now(),
            submission_decision_date: None,
        }
    }
}

impl Submission {
    /// The decision and its date are both absent or both present.
    pub open spec fn consistent(self) -> bool {
        self.decision is Some <==> self.submission_decision_date is Some
    }

    /// Whether the submission still awaits its decision.
    pub open spec fn undecided(self) -> bool {
        self.decision is None
    }

    /// The row that a store makes of `add` under the id `id` at `now`.
    pub open spec fn accepted(add: AddSubmission, id: i32, now: Timestamp) -> Submission {
        Submission {
            submission_id: id,
            user_id: stored_user_id(add.user_id),
            artist: add.artist,
            art_link: add.art_link,
            additional_information: add.additional_information,
            sample_image_url: add.sample_image_url,
            decision: None,
            submission_date: now,
            submission_decision_date: None,
        }
    }

    /// The submission with `decision` taken at `now`.
    pub open spec fn decided(self, decision: SubmissionDecision, now: Timestamp) -> Submission {
        Submission { decision: Some(decision), submission_decision_date: Some(now), ..self }
    }
}

impl SubmissionIds {
    /// Whether the selector names `row`.
    pub open spec fn selects(self, row: Submission) -> bool {
        match self {
            SubmissionIds::SubmissionId(id) => row.submission_id == id,
            SubmissionIds::UserId(id) => row.user_id == stored_user_id(id),
        }
    }

    /// Whether the selector names `row`.
    pub fn matches(&self, row: &Submission) -> (hit: bool)
        ensures
            hit == self.selects(*row),
    {
        match self {
            SubmissionIds::SubmissionId(id) => row.submission_id == *id,
            SubmissionIds::UserId(id) => row.user_id == to_stored_user_id(*id),
        }
    }
}

/// Ids are positive, ascend in the order of insertion and stay below the last one handed out;
/// every row is consistent.
pub open spec fn rows_valid(rows: Seq<Submission>, last_id: int) -> bool {
    &&& 0 <= last_id <= i32::MAX
    &&& forall|i: int| 0 <= i < rows.len() ==> 1 <= (#[trigger] rows[i]).submission_id <= last_id
    &&& forall|i: int, j: int|
        0 <= i < j < rows.len() ==> (#[trigger] rows[i]).submission_id < (
        #[trigger] rows[j]).submission_id
    &&& forall|i: int| 0 <= i < rows.len() ==> (#[trigger] rows[i]).consistent()
}

/// Whether some row has the id `id`.
pub open spec fn holds_id(rows: Seq<Submission>, id: int) -> bool {
    exists|i: int| 0 <= i < rows.len() && (#[trigger] rows[i]).submission_id == id
}

/// Whether the row at `i` is named by `selector` and undecided.
pub open spec fn open_match(rows: Seq<Submission>, selector: SubmissionIds, i: int) -> bool {
    0 <= i < rows.len() && selector.selects(rows[i]) && rows[i].undecided()
}

/// Whether `selector` names a row at all.
pub open spec fn any_match(rows: Seq<Submission>, selector: SubmissionIds) -> bool {
    exists|i: int| 0 <= i < rows.len() && selector.selects(#[trigger] rows[i])
}

/// Whether `selector` names an undecided row.
pub open spec fn any_open_match(rows: Seq<Submission>, selector: SubmissionIds) -> bool {
    exists|i: int| #[trigger] open_match(rows, selector, i)
}

/// Whether the row at `i` is the only undecided row that `selector` names.
pub open spec fn sole_open_match(rows: Seq<Submission>, selector: SubmissionIds, i: int) -> bool {
    open_match(rows, selector, i) && forall|j: int| #[trigger]
        open_match(rows, selector, j) ==> j == i
}

/// Whether `selector` names more than one undecided row.
pub open spec fn many_open_matches(rows: Seq<Submission>, selector: SubmissionIds) -> bool {
    exists|i: int, j: int|
        i != j && #[trigger] open_match(rows, selector, i) && #[trigger] open_match(
            rows,
            selector,
            j,
        )
}

/// The relation of submissions, with the sequence that numbers them.
pub struct SubmissionTable {
    rows: Vec<Submission>,
    last_id: i32,
}

impl View for SubmissionTable {
    type V = Seq<Submission>;

    closed spec fn view(&self) -> Seq<Submission> {
        self.rows@
    }
}

impl SubmissionTable {
    /// The id that was handed out last, zero before the first.
    pub closed spec fn last_id(&self) -> int {
        self.last_id as int
    }

    /// The constraints of the relation.
    pub open spec fn wf(&self) -> bool {
        rows_valid(self@, self.last_id())
    }

    /// The empty relation.
    pub fn new() -> (table: SubmissionTable)
        ensures
            table@ == Seq::<Submission>::empty(),
            table.last_id() == 0,
            table.wf(),
    {
        SubmissionTable { rows: Vec::new(), last_id: 0 }
    }

    /// The number of rows.
    pub fn len(&self) -> (n: usize)
        ensures
            n == self@.len(),
    {
        self.rows.len()
    }

    /// The id that the next row will get, unless the ids are used up.
    pub fn next_id(&self) -> (id: Option<i32>)
        ensures
            match id {
                Some(id) => self.last_id() < i32::MAX && id == self.last_id() + 1,
                None => self.last_id() == i32::MAX,
            },
    {
        if self.last_id == i32::MAX {
            None
        } else {
            Some(self.last_id + 1)
        }
    }

    /// The row with the id `id`.
    pub fn get(&self, id: i32) -> (row: Option<Submission>)
        ensures
            row is Some <==> holds_id(self@, id as int),
            row matches Some(row) ==> self@.contains(row) && row.submission_id == id,
    {
        let n = self.rows.len();
        let mut i: usize = 0;
        while i < n
            invariant
                n == self.rows.len(),
                i <= n,
                forall|k: int| 0 <= k < i ==> (#[trigger] self.rows@[k]).submission_id != id,
            decreases n - i,
        {
            if self.rows[i].submission_id == id {
                return Some(self.rows[i].clone());
            }
            i += 1;
        }
        None
    }

    /// Whether some row has the id `id`.
    pub fn contains_id(&self, id: i32) -> (held: bool)
        ensures
            held == holds_id(self@, id as int),
    {
        let n = self.rows.len();
        let mut i: usize = 0;
        while i < n
            invariant
                n == self.rows.len(),
                i <= n,
                forall|k: int| 0 <= k < i ==> (#[trigger] self.rows@[k]).submission_id != id,
            decreases n - i,
        {
            if self.rows[i].submission_id == id {
                return true;
            }
            i += 1;
        }
        false
    }

    /// Inserts `add` as an undecided row dated `now`, under the next id, and returns the row.
    /// Fails with `StoreError`, and changes nothing, once the ids are used up.
    pub fn insert(&mut self, add: AddSubmission, now: &Timestamp) -> (result: Result<
        Submission,
        Error,
    >)
        requires
            old(self).wf(),
        ensures
            final(self).wf(),
            match result {
                Ok(row) => {
                    &&& old(self).last_id() < i32::MAX
                    &&& row == Submission::accepted(add, (old(self).last_id() + 1) as i32, *now)
                    &&& final(self)@ == old(self)@.push(row)
                    &&& final(self).last_id() == old(self).last_id() + 1
                },
                Err(e) => {
                    &&& e == Error::StoreError
                    &&& old(self).last_id() == i32::MAX
                    &&& final(self)@ == old(self)@
                    &&& final(self).last_id() == old(self).last_id()
                },
            },
    {
        if self.last_id == i32::MAX {
            return Err(Error::StoreError);
        }
        let id = self.last_id + 1;
        let row = Submission {
            submission_id: id,
            user_id: to_stored_user_id(add.user_id),
            artist: add.artist,
            art_link: add.art_link,
            additional_information: add.additional_information,
            sample_image_url: add.sample_image_url,
            decision: None,
            submission_date: *now,
            submission_decision_date: None,
        };
        let stored = row.clone();
        self.rows.push(stored);
        self.last_id = id;
        proof {
            let before = old(self)@;
            let after = self.rows@;
            assert forall|i: int| 0 <= i < after.len() implies 1 <= (#[trigger] after[i]).submission_id
                <= id && after[i].consistent() by {
                if i < before.len() {
                    assert(after[i] == before[i]);
                }
            }
            assert forall|i: int, j: int| 0 <= i < j < after.len() implies (#[trigger] after[i]).submission_id
                < (#[trigger] after[j]).submission_id by {
                assert(after[i] == before[i]);
                if j < before.len() {
                    assert(after[j] == before[j]);
                }
            }
        }
        Ok(row)
    }

    /// Sets `decision`, dated `now`, on the one undecided row that `selector` names, and returns
    /// the row as it then stands. Otherwise nothing changes, and the error is
    /// `NotFound` where the selector names no row, `AlreadyDecided` where every row that it
    /// names has its decision, and `StoreError` where it names several undecided rows.
    pub fn decide(
        &mut self,
        selector: &SubmissionIds,
        decision: SubmissionDecision,
        now: &Timestamp,
    ) -> (result: Result<Submission, Error>)
        requires
            old(self).wf(),
        ensures
            final(self).wf(),
            final(self).last_id() == old(self).last_id(),
            result == decision_result(old(self)@, *selector, decision, *now),
            final(self)@ == after_decision(old(self)@, *selector, decision, *now),
    {
        let n = self.rows.len();
        let mut i: usize = 0;
        let mut named = false;
        let mut sole: Option<usize> = None;
        let mut many = false;
        let ghost mut named_at: int = 0;
        let ghost mut first: int = 0;
        let ghost mut second: int = 0;
        while i < n
            invariant
                n == self.rows.len(),
                i <= n,
                self.rows@ == old(self)@,
                named ==> 0 <= named_at < i && selector.selects(self.rows@[named_at]),
                !named ==> forall|k: int| 0 <= k < i ==> !selector.selects(#[trigger] self.rows@[k]),
                many ==> first != second && open_match(self.rows@, *selector, first) && open_match(
                    self.rows@,
                    *selector,
                    second,
                ),
                !many ==> match sole {
                    Some(at) => at < i && open_match(self.rows@, *selector, at as int)
                        && forall|k: int|
                        k < i && #[trigger] open_match(self.rows@, *selector, k) ==> k == at,
                    None => forall|k: int|
                        k < i ==> !#[trigger] open_match(self.rows@, *selector, k),
                },
            decreases n - i,
        {
            if selector.matches(&self.rows[i]) {
                named = true;
                proof {
                    named_at = i as int;
                }
                if self.rows[i].decision.is_none() {
                    match sole {
                        Some(at) => {
                            if !many {
                                proof {
                                    first = at as int;
                                    second = i as int;
                                }
                            }
                            many = true;
                        },
                        None => {
                            sole = Some(i);
                        },
                    }
                }
            }
            i += 1;
        }
        if !named {
            return Err(Error::NotFound);
        }
        assert(any_match(self.rows@, *selector));
        if many {
            assert(any_open_match(self.rows@, *selector));
            return Err(Error::StoreError);
        }
        match sole {
            None => Err(Error::AlreadyDecided),
            Some(at) => {
                assert(sole_open_match(self.rows@, *selector, at as int));
                proof {
                    lemma_sole_open_match(self.rows@, *selector, at as int);
                }
                let mut row = self.rows.remove(at);
                row.decision = Some(decision);
                row.submission_decision_date = Some(*now);
                let stored = row.clone();
                self.rows.insert(at, stored);
                proof {
                    let before = old(self)@;
                    let after = self.rows@;
                    assert(after =~= before.update(at as int, row));
                    assert forall|k: int| 0 <= k < after.len() implies 1 <= (#[trigger] after[k]).submission_id
                        <= self.last_id && after[k].consistent() by {
                        if k != at {
                            assert(after[k] == before[k]);
                        } else {
                            assert(before[k].consistent());
                        }
                    }
                    assert forall|a: int, b: int| 0 <= a < b < after.len() implies (#[trigger] after[a]).submission_id
                        < (#[trigger] after[b]).submission_id by {
                        assert(after[a].submission_id == before[a].submission_id);
                        assert(after[b].submission_id == before[b].submission_id);
                    }
                }
                Ok(row)
            },
        }
    }
}

/// The position of the only undecided row that `selector` names.
pub open spec fn the_open_match(rows: Seq<Submission>, selector: SubmissionIds) -> int {
    choose|i: int| sole_open_match(rows, selector, i)
}

/// What deciding by `selector` returns: the one undecided row that the selector names, with
/// the decision dated `now`. The error is `NotFound` where the selector names no row,
/// `AlreadyDecided` where every row that it names has its decision, and `StoreError` where it
/// names several undecided rows.
pub open spec fn decision_result(
    rows: Seq<Submission>,
    selector: SubmissionIds,
    decision: SubmissionDecision,
    now: Timestamp,
) -> Result<Submission, Error> {
    if !any_match(rows, selector) {
        Err(Error::NotFound)
    } else if !any_open_match(rows, selector) {
        Err(Error::AlreadyDecided)
    } else if many_open_matches(rows, selector) {
        Err(Error::StoreError)
    } else {
        Ok(rows[the_open_match(rows, selector)].decided(decision, now))
    }
}

/// The rows after deciding by `selector`: the decided row stands in the place of the
/// undecided one, and nothing changes where the decision fails.
pub open spec fn after_decision(
    rows: Seq<Submission>,
    selector: SubmissionIds,
    decision: SubmissionDecision,
    now: Timestamp,
) -> Seq<Submission> {
    match decision_result(rows, selector, decision, now) {
        Ok(row) => rows.update(the_open_match(rows, selector), row),
        Err(_) => rows,
    }
}

/// Where one undecided row is named, it is the row that the decision falls on.
pub proof fn lemma_sole_open_match(rows: Seq<Submission>, selector: SubmissionIds, i: int)
    requires
        sole_open_match(rows, selector, i),
    ensures
        the_open_match(rows, selector) == i,
        any_match(rows, selector),
        any_open_match(rows, selector),
        !many_open_matches(rows, selector),
{
    assert(open_match(rows, selector, i));
    assert(selector.selects(rows[i]));
    if many_open_matches(rows, selector) {
        let (a, b) = choose|a: int, b: int|
            a != b && #[trigger] open_match(rows, selector, a) && #[trigger] open_match(
                rows,
                selector,
                b,
            );
        assert(a == i && b == i);
    }
}

/// Where undecided rows are named, but not several, one of them is the only one.
pub proof fn lemma_open_match_is_sole(rows: Seq<Submission>, selector: SubmissionIds)
    requires
        any_open_match(rows, selector),
        !many_open_matches(rows, selector),
    ensures
        sole_open_match(rows, selector, the_open_match(rows, selector)),
{
    let w = choose|w: int| #[trigger] open_match(rows, selector, w);
    assert forall|j: int| #[trigger] open_match(rows, selector, j) implies j == w by {
        if j != w {
            assert(open_match(rows, selector, j) && open_match(rows, selector, w));
            assert(many_open_matches(rows, selector));
        }
    }
    assert(sole_open_match(rows, selector, w));
}

/// A decision keeps the constraints of the relation and the ids of its rows, and it touches
/// no row but the one it falls on.
pub proof fn lemma_decision_keeps_valid(
    rows: Seq<Submission>,
    last_id: int,
    selector: SubmissionIds,
    decision: SubmissionDecision,
    now: Timestamp,
)
    requires
        rows_valid(rows, last_id),
    ensures
        rows_valid(after_decision(rows, selector, decision, now), last_id),
        after_decision(rows, selector, decision, now).len() == rows.len(),
        forall|id: int|
            holds_id(after_decision(rows, selector, decision, now), id) <==> holds_id(rows, id),
        forall|j: int|
            0 <= j < rows.len() ==> {
                let after = #[trigger] after_decision(rows, selector, decision, now)[j];
                &&& after.submission_id == rows[j].submission_id
                &&& after == rows[j] || (selector.selects(rows[j]) && rows[j].undecided())
            },
{
    let after = after_decision(rows, selector, decision, now);
    if decision_result(rows, selector, decision, now) is Ok {
        lemma_open_match_is_sole(rows, selector);
        let i = the_open_match(rows, selector);
        let row = rows[i].decided(decision, now);
        assert(after == rows.update(i, row));
        assert forall|id: int| holds_id(after, id) <==> holds_id(rows, id) by {
            lemma_update_keeps_ids(rows, i, row, id);
        }
        assert forall|k: int| 0 <= k < after.len() implies 1 <= (#[trigger] after[k]).submission_id
            <= last_id && after[k].consistent() by {
            if k != i {
                assert(after[k] == rows[k]);
            } else {
                assert(rows[k].consistent());
            }
        }
        assert forall|a: int, b: int| 0 <= a < b < after.len() implies (#[trigger] after[a]).submission_id
            < (#[trigger] after[b]).submission_id by {
            assert(after[a].submission_id == rows[a].submission_id);
            assert(after[b].submission_id == rows[b].submission_id);
        }
    }
}

/// Replacing a row by one with the same id keeps every id in the relation.
pub proof fn lemma_update_keeps_ids(rows: Seq<Submission>, i: int, row: Submission, id: int)
    requires
        0 <= i < rows.len(),
        row.submission_id == rows[i].submission_id,
    ensures
        holds_id(rows.update(i, row), id) <==> holds_id(rows, id),
{
    let after = rows.update(i, row);
    if holds_id(rows, id) {
        let k = choose|k: int| 0 <= k < rows.len() && (#[trigger] rows[k]).submission_id == id;
        assert(after[k].submission_id == id);
    }
    if holds_id(after, id) {
        let k = choose|k: int| 0 <= k < after.len() && (#[trigger] after[k]).submission_id == id;
        assert(rows[k].submission_id == id);
    }
}

/// The operations of the submission store.
pub trait SubmissionHelpers {
    /// Inserts `submission` as an undecided row dated `now` and returns the stored row with
    /// its generated id. Fails with `StoreError`, and changes nothing, once the ids are used
    /// up.
    fn add_submission(executor: &mut Database, submission: AddSubmission, now: &Timestamp) -> (result:
        Result<Submission, Error>)
        requires
            old(executor).wf(),
        ensures
            final(executor).wf(),
            old(executor).settled() ==> final(executor).settled(),
            final(executor).pending_approvals@ == old(executor).pending_approvals@,
            match result {
                Ok(row) => {
                    &&& old(executor).submissions.last_id() < i32::MAX
                    &&& row == Submission::accepted(
                        submission,
                        (old(executor).submissions.last_id() + 1) as i32,
                        *now,
                    )
                    &&& final(executor).submissions@ == old(executor).submissions@.push(row)
                    &&& final(executor).submissions.last_id() == old(executor).submissions.last_id()
                        + 1
                },
                Err(e) => {
                    &&& e == Error::StoreError
                    &&& old(executor).submissions.last_id() == i32::MAX
                    &&& final(executor).submissions@ == old(executor).submissions@
                    &&& final(executor).submissions.last_id() == old(executor).submissions.last_id()
                },
            },
    ;

    /// Approves, at `now`, the one undecided submission that `approve_submission` names, and
    /// returns the row as it then stands.
    fn approve_submission(
        executor: &mut Database,
        approve_submission: SubmissionIds,
        now: &Timestamp,
    ) -> (result: Result<Submission, Error>)
        requires
            old(executor).wf(),
        ensures
            final(executor).wf(),
            final(executor).pending_approvals@ == old(executor).pending_approvals@,
            final(executor).submissions.last_id() == old(executor).submissions.last_id(),
            result == decision_result(old(executor).submissions@, approve_submission, SubmissionDecision::Approved, *now),
            final(executor).submissions@ == after_decision(
                old(executor).submissions@,
                approve_submission,
                SubmissionDecision::Approved,
                *now,
            ),
    ;

    /// Rejects, at `now`, the one undecided submission that `submission_id` names, and returns
    /// the row as it then stands.
    fn reject_submission(executor: &mut Database, submission_id: SubmissionIds, now: &Timestamp) -> (result:
        Result<Submission, Error>)
        requires
            old(executor).wf(),
        ensures
            final(executor).wf(),
            final(executor).pending_approvals@ == old(executor).pending_approvals@,
            final(executor).submissions.last_id() == old(executor).submissions.last_id(),
            result == decision_result(old(executor).submissions@, submission_id, SubmissionDecision::Rejected, *now),
            final(executor).submissions@ == after_decision(
                old(executor).submissions@,
                submission_id,
                SubmissionDecision::Rejected,
                *now,
            ),
    ;
}

/// Sets `decision` on the submission that `selector` names, within the store.
fn decide_in(
    executor: &mut Database,
    selector: SubmissionIds,
    decision: SubmissionDecision,
    now: &Timestamp,
) -> (result: Result<Submission, Error>)
    requires
        old(executor).wf(),
    ensures
        final(executor).wf(),
        final(executor).pending_approvals@ == old(executor).pending_approvals@,
        final(executor).submissions.last_id() == old(executor).submissions.last_id(),
        result == decision_result(old(executor).submissions@, selector, decision, *now),
        final(executor).submissions@ == after_decision(
            old(executor).submissions@,
            selector,
            decision,
            *now,
        ),
{
    let result = executor.submissions.decide(&selector, decision, now);
    proof {
        if result is Ok {
            let row = result->Ok_0;
            let before = old(executor).submissions@;
            let i = the_open_match(before, selector);
            lemma_open_match_is_sole(before, selector);
            let approvals = executor.pending_approvals@;
            assert forall|k: int| 0 <= k < approvals.len() implies holds_id(
                executor.submissions@,
                (#[trigger] approvals[k]).submission_id as int,
            ) by {
                lemma_update_keeps_ids(before, i, row, approvals[k].submission_id as int);
            }
        }
    }
    result
}

impl SubmissionHelpers for Submission {
    fn add_submission(executor: &mut Database, submission: AddSubmission, now: &Timestamp) -> (result:
        Result<Submission, Error>) {
        let result = executor.submissions.insert(submission, now);
        proof {
            if result is Ok {
                let row = result->Ok_0;
                let before = old(executor).submissions@;
                let after = executor.submissions@;
                let approvals = executor.pending_approvals@;
                assert forall|k: int| 0 <= k < approvals.len() implies holds_id(
                    after,
                    (#[trigger] approvals[k]).submission_id as int,
                ) by {
                    let id = approvals[k].submission_id as int;
                    let j = choose|j: int|
                        0 <= j < before.len() && (#[trigger] before[j]).submission_id == id;
                    assert(after[j] == before[j]);
                }
                if old(executor).settled() {
                    assert forall|i: int, j: int|
                        0 <= i < approvals.len() && 0 <= j < after.len() && (
                        #[trigger] approvals[i]).submission_id == (
                        #[trigger] after[j]).submission_id implies after[j].undecided() by {
                        if j < before.len() {
                            assert(after[j] == before[j]);
                        }
                    }
                }
            }
        }
        result
    }

    fn approve_submission(
        executor: &mut Database,
        approve_submission: SubmissionIds,
        now: &Timestamp,
    ) -> (result: Result<Submission, Error>) {
        decide_in(executor, approve_submission, SubmissionDecision::Approved, now)
    }

    fn reject_submission(executor: &mut Database, submission_id: SubmissionIds, now: &Timestamp) -> (result:
        Result<Submission, Error>) {
        decide_in(executor, submission_id, SubmissionDecision::Rejected, now)
    }
}

} // verus!
