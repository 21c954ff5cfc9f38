//! Open approvals: the rows, their keys, and the relation that holds them.

use crate::error::Error;
use crate::models::database::{approvals_open, references_hold, Database};
use crate::models::submissions::{holds_id, Submission};
use crate::seq_lemmas::{
    lemma_filter_agree, lemma_filter_all, lemma_filter_empty, lemma_filter_first,
    lemma_filter_member, lemma_filter_none, lemma_filter_push, lemma_take_next,
};
use crate::time::{Timestamp, APPROVAL_TTL};
use vstd::prelude::*;

verus! {

/// A submission that awaits its decision, and the message that displays it.
#[derive(Clone, Copy, Debug, PartialEq, Eq, Structural)]
pub struct PendingApproval {
    pub submission_id: i32,
    pub message_id: i64,
    pub date: Timestamp,
}

/// The keys of an approval that is about to be opened.
#[derive(Clone, Copy, Debug, PartialEq, Eq)]
pub struct AddPendingApproval {
    pub submission_id: i32,
    pub message_id: u64,
}

/// Names one open approval by either of its keys.
#[derive(Clone, Copy, Debug, PartialEq, Eq)]
pub enum RemovePendingApproval {
    SubmissionId(i32),
    MessageId(u64),
}

impl RemovePendingApproval {
    /// Whether `row` is the approval that the selector names.
    pub open spec fn selects(self, row: PendingApproval) -> bool {
        match self {
            RemovePendingApproval::SubmissionId(id) => row.submission_id == id,
            RemovePendingApproval::MessageId(id) => row.message_id as int == id as int,
        }
    }

    /// Whether `row` is the approval that the selector names.
    pub fn matches(&self, row: &PendingApproval) -> (hit: bool)
        ensures
            hit == self.selects(*row),
    {
        match self {
            RemovePendingApproval::SubmissionId(id) => row.submission_id == *id,
            RemovePendingApproval::MessageId(id) => row.message_id >= 0 && row.message_id as u64
                == *id,
        }
    }
}

impl PendingApproval {
    /// The instant at which the approval expires, in microseconds since the Unix epoch.
    pub open spec fn deadline(self) -> int {
        self.date@ + APPROVAL_TTL
    }

    /// Whether the approval is older than `ttl` microseconds at `now`: the rule of the sweep.
    pub open spec fn stale(self, now: int, ttl: int) -> bool {
        self.date@ < now - ttl
    }

    /// Whether the countdown of the approval has run out at `now`: a full day has passed since
    /// it was opened.
    pub fn is_expired(&self, now: &Timestamp) -> (expired: bool)
        ensures
            expired == (now@ >= self.deadline()),
    {
        now.days_since(&self.date) >= 1
    }

    /// Whether the approval is older than `ttl` microseconds at `now`.
    pub fn is_stale(&self, now: &Timestamp, ttl: i64) -> (stale: bool)
        ensures
            stale == self.stale(now@, ttl as int),
    {
        (self.date.micros() as i128) < (now.micros() as i128) - (ttl as i128)
    }

    /// The microseconds that are left at `now` until the approval expires, zero once the
    /// deadline has passed.
    pub fn remaining_ttl(&self, now: &Timestamp) -> (remaining: u64)
        ensures
            remaining == if now@ >= self.deadline() {
                0
            } else {
                self.deadline() - now@
            },
    {
        let left: i128 = (self.date.micros() as i128) + (APPROVAL_TTL as i128) - (now.micros()
            as i128);
        if left <= 0 {
            0
        } else {
            left as u64
        }
    }
}

/// The rows that `selector` names.
pub open spec fn selected_by(selector: RemovePendingApproval) -> spec_fn(PendingApproval) -> bool {
    |row: PendingApproval| selector.selects(row)
}

/// The rows that `selector` does not name.
pub open spec fn spared_by(selector: RemovePendingApproval) -> spec_fn(PendingApproval) -> bool {
    |row: PendingApproval| !selector.selects(row)
}

/// The rows that are older than `ttl` at `now`.
pub open spec fn stale_at(now: int, ttl: int) -> spec_fn(PendingApproval) -> bool {
    |row: PendingApproval| row.stale(now, ttl)
}

/// The rows that are not older than `ttl` at `now`.
pub open spec fn fresh_at(now: int, ttl: int) -> spec_fn(PendingApproval) -> bool {
    |row: PendingApproval| !row.stale(now, ttl)
}

/// The rows whose countdown has run out at `now`.
pub open spec fn due_at(now: int) -> spec_fn(PendingApproval) -> bool {
    |row: PendingApproval| now >= row.deadline()
}

/// The rows whose countdown still runs at `now`.
pub open spec fn alive_at(now: int) -> spec_fn(PendingApproval) -> bool {
    |row: PendingApproval| now < row.deadline()
}

/// The rows equal to `row`.
pub open spec fn same_as(row: PendingApproval) -> spec_fn(PendingApproval) -> bool {
    |other: PendingApproval| other == row
}

/// The rows other than `row`.
pub open spec fn other_than(row: PendingApproval) -> spec_fn(PendingApproval) -> bool {
    |other: PendingApproval| other != row
}

/// No two rows share a submission, and no two rows share a message.
pub open spec fn keys_unique(rows: Seq<PendingApproval>) -> bool {
    forall|i: int, j: int|
        0 <= i < j < rows.len() ==> (#[trigger] rows[i]).submission_id != (
        #[trigger] rows[j]).submission_id && rows[i].message_id != rows[j].message_id
}

/// Whether some row belongs to the submission `id`.
pub open spec fn holds_submission(rows: Seq<PendingApproval>, id: int) -> bool {
    exists|i: int| 0 <= i < rows.len() && (#[trigger] rows[i]).submission_id == id
}

/// Whether some row belongs to the message `id`.
pub open spec fn holds_message(rows: Seq<PendingApproval>, id: int) -> bool {
    exists|i: int| 0 <= i < rows.len() && (#[trigger] rows[i]).message_id == id
}

/// What inserting `add` at `now` returns: the new row, unless the message id does not fit the
/// column or one of the keys is taken.
pub open spec fn insertion(rows: Seq<PendingApproval>, add: AddPendingApproval, now: Timestamp)
    -> Result<PendingApproval, Error> {
    if add.message_id > i64::MAX {
        Err(Error::StoreError)
    } else if holds_submission(rows, add.submission_id as int) || holds_message(
        rows,
        add.message_id as int,
    ) {
        Err(Error::DuplicateApproval)
    } else {
        Ok(
            PendingApproval {
                submission_id: add.submission_id,
                message_id: add.message_id as i64,
                date: now,
            },
        )
    }
}

/// What deleting by `selector` returns: the first row that the selector names.
pub open spec fn removal(rows: Seq<PendingApproval>, selector: RemovePendingApproval) -> Result<
    PendingApproval,
    Error,
> {
    let hits = rows.filter(selected_by(selector));
    if hits.len() > 0 {
        Ok(hits[0])
    } else {
        Err(Error::NotFound)
    }
}

/// What opening an approval in the store returns: what the relation returns, unless no
/// submission with that id exists.
pub open spec fn addition(
    submissions: Seq<Submission>,
    rows: Seq<PendingApproval>,
    add: AddPendingApproval,
    now: Timestamp,
) -> Result<PendingApproval, Error> {
    match insertion(rows, add, now) {
        Ok(row) => if holds_id(submissions, add.submission_id as int) {
            Ok(row)
        } else {
            Err(Error::StoreError)
        },
        Err(e) => Err(e),
    }
}

/// Filtering keeps the keys apart.
pub proof fn lemma_filter_keeps_keys_unique(
    rows: Seq<PendingApproval>,
    pred: spec_fn(PendingApproval) -> bool,
)
    requires
        keys_unique(rows),
    ensures
        keys_unique(rows.filter(pred)),
    decreases rows.len(),
{
    reveal(Seq::filter);
    if rows.len() > 0 {
        let front = rows.drop_last();
        let last = rows.last();
        assert forall|i: int, j: int| 0 <= i < j < front.len() implies (#[trigger] front[i]).submission_id
            != (#[trigger] front[j]).submission_id && front[i].message_id
            != front[j].message_id by {
            assert(front[i] == rows[i] && front[j] == rows[j]);
        }
        lemma_filter_keeps_keys_unique(front, pred);
        let kept = front.filter(pred);
        if pred(last) {
            let out = kept.push(last);
            assert forall|i: int, j: int| 0 <= i < j < out.len() implies (#[trigger] out[i]).submission_id
                != (#[trigger] out[j]).submission_id && out[i].message_id != out[j].message_id by {
                if j == kept.len() {
                    assert(kept.contains(kept[i]));
                    lemma_filter_member(front, pred, kept[i]);
                    let k = choose|k: int| 0 <= k < front.len() && front[k] == kept[i];
                    assert(rows[k] == front[k]);
                    assert(rows[rows.len() - 1] == last);
                } else {
                    assert(out[i] == kept[i] && out[j] == kept[j]);
                }
            }
        }
    }
}

/// Among rows with distinct keys, a row is named by its own keys and by no other row's.
pub proof fn lemma_selected_is_same(
    rows: Seq<PendingApproval>,
    selector: RemovePendingApproval,
    k: int,
)
    requires
        keys_unique(rows),
        0 <= k < rows.len(),
        selector.selects(rows[k]),
    ensures
        forall|i: int| 0 <= i < rows.len() ==> (selector.selects(#[trigger] rows[i]) <==> rows[i] == rows[k]),
{
    assert forall|i: int| 0 <= i < rows.len() implies (selector.selects(#[trigger] rows[i]) <==> rows[i]
        == rows[k]) by {
        if selector.selects(rows[i]) && i != k {
            if i < k {
                assert(rows[i].submission_id != rows[k].submission_id);
            } else {
                assert(rows[k].submission_id != rows[i].submission_id);
            }
        }
    }
}

/// Among rows with distinct keys, deleting by a selector leaves the rows other than the one
/// that was deleted.
pub proof fn lemma_removal_evicts(rows: Seq<PendingApproval>, selector: RemovePendingApproval)
    requires
        keys_unique(rows),
        removal(rows, selector) is Ok,
    ensures
        rows.filter(spared_by(selector)) == rows.filter(other_than(removal(rows, selector)->Ok_0)),
        rows.contains(removal(rows, selector)->Ok_0),
        selector.selects(removal(rows, selector)->Ok_0),
{
    let hits = rows.filter(selected_by(selector));
    let row = hits[0];
    assert(hits.contains(row));
    lemma_filter_member(rows, selected_by(selector), row);
    let k = choose|k: int| 0 <= k < rows.len() && rows[k] == row;
    lemma_selected_is_same(rows, selector, k);
    lemma_filter_agree(rows, spared_by(selector), other_than(row));
}

/// Filtering the approvals breaks no reference and reopens no decided submission.
pub proof fn lemma_filter_keeps_references(
    submissions: Seq<Submission>,
    rows: Seq<PendingApproval>,
    pred: spec_fn(PendingApproval) -> bool,
)
    ensures
        references_hold(submissions, rows) ==> references_hold(submissions, rows.filter(pred)),
        approvals_open(submissions, rows) ==> approvals_open(submissions, rows.filter(pred)),
{
    let kept = rows.filter(pred);
    assert forall|i: int| 0 <= i < kept.len() implies rows.contains(#[trigger] kept[i]) by {
        assert(kept.contains(kept[i]));
        lemma_filter_member(rows, pred, kept[i]);
    }
    if references_hold(submissions, rows) {
        assert forall|i: int| 0 <= i < kept.len() implies holds_id(
            submissions,
            (#[trigger] kept[i]).submission_id as int,
        ) by {
            assert(rows.contains(kept[i]));
            let k = choose|k: int| 0 <= k < rows.len() && rows[k] == kept[i];
            assert(holds_id(submissions, rows[k].submission_id as int));
        }
    }
    if approvals_open(submissions, rows) {
        assert forall|i: int, j: int|
            0 <= i < kept.len() && 0 <= j < submissions.len() && (
            #[trigger] kept[i]).submission_id == (
            #[trigger] submissions[j]).submission_id implies submissions[j].undecided() by {
            assert(rows.contains(kept[i]));
            let k = choose|k: int| 0 <= k < rows.len() && rows[k] == kept[i];
            assert(rows[k].submission_id == submissions[j].submission_id);
        }
    }
}

/// One way of splitting the rows in two.
enum Criterion {
    Selected(RemovePendingApproval),
    Stale(Timestamp, i64),
    Due(Timestamp),
    Same(PendingApproval),
}

impl Criterion {
    spec fn passing(self) -> spec_fn(PendingApproval) -> bool {
        match self {
            Criterion::Selected(selector) => selected_by(selector),
            Criterion::Stale(now, ttl) => stale_at(now@, ttl as int),
            Criterion::Due(now) => due_at(now@),
            Criterion::Same(row) => same_as(row),
        }
    }

    spec fn failing(self) -> spec_fn(PendingApproval) -> bool {
        match self {
            Criterion::Selected(selector) => spared_by(selector),
            Criterion::Stale(now, ttl) => fresh_at(now@, ttl as int),
            Criterion::Due(now) => alive_at(now@),
            Criterion::Same(row) => other_than(row),
        }
    }

    fn passes(&self, row: &PendingApproval) -> (pass: bool)
        ensures
            pass == (self.passing())(*row),
            pass == !(self.failing())(*row),
    {
        match self {
            Criterion::Selected(selector) => selector.matches(row),
            Criterion::Stale(now, ttl) => row.is_stale(now, *ttl),
            Criterion::Due(now) => row.is_expired(now),
            Criterion::Same(other) => {
                proof {
                    Timestamp::lemma_view_injective(row.date, other.date);
                }
                row.submission_id == other.submission_id && row.message_id == other.message_id
                    && row.date.micros() == other.date.micros()
            },
        }
    }
}

/// Splits `rows` into those that meet the criterion and the rest, each part in the order of
/// `rows`.
fn split(rows: &Vec<PendingApproval>, criterion: &Criterion) -> (parts: (
    Vec<PendingApproval>,
    Vec<PendingApproval>,
))
    ensures
        parts.0@ == rows@.filter(criterion.passing()),
        parts.1@ == rows@.filter(criterion.failing()),
{
    let mut hits: Vec<PendingApproval> = Vec::new();
    let mut rest: Vec<PendingApproval> = Vec::new();
    let n = rows.len();
    let mut i: usize = 0;
    proof {
        lemma_filter_empty(criterion.passing());
        lemma_filter_empty(criterion.failing());
        assert(rows@.take(0) =~= Seq::empty());
    }
    while i < n
        invariant
            n == rows.len(),
            i <= n,
            hits@ == rows@.take(i as int).filter(criterion.passing()),
            rest@ == rows@.take(i as int).filter(criterion.failing()),
        decreases n - i,
    {
        let row = rows[i];
        proof {
            lemma_take_next(rows@, i as int);
            lemma_filter_push(rows@.take(i as int), criterion.passing(), row);
            lemma_filter_push(rows@.take(i as int), criterion.failing(), row);
        }
        if criterion.passes(&row) {
            hits.push(row);
        } else {
            rest.push(row);
        }
        i += 1;
    }
    proof {
        assert(rows@.take(n as int) =~= rows@);
    }
    (hits, rest)
}

/// The first row of `rows` that `selector` names.
pub fn first_selected(rows: &Vec<PendingApproval>, selector: &RemovePendingApproval) -> (result:
    Result<PendingApproval, Error>)
    ensures
        result == removal(rows@, *selector),
        result matches Ok(row) ==> rows@.contains(row) && selector.selects(row),
        result is Err ==> forall|i: int| 0 <= i < rows.len() ==> !selector.selects(#[trigger] rows[i]),
{
    let n = rows.len();
    let mut i: usize = 0;
    while i < n
        invariant
            n == rows.len(),
            i <= n,
            forall|k: int| 0 <= k < i ==> !selected_by(*selector)(#[trigger] rows[k]),
        decreases n - i,
    {
        if selector.matches(&rows[i]) {
            proof {
                lemma_filter_first(rows@, selected_by(*selector), i as int);
            }
            return Ok(rows[i]);
        }
        i += 1;
    }
    proof {
        lemma_filter_none(rows@, selected_by(*selector));
    }
    Err(Error::NotFound)
}

/// The rows of `rows` other than `row`, in their order.
pub fn without(rows: &Vec<PendingApproval>, row: &PendingApproval) -> (rest: Vec<PendingApproval>)
    ensures
        rest@ == rows@.filter(other_than(*row)),
{
    split(rows, &Criterion::Same(*row)).1
}

/// The rows of `rows` that are not older than `ttl` at `now`, in their order.
pub fn fresh_rows(rows: &Vec<PendingApproval>, now: &Timestamp, ttl: i64) -> (rest: Vec<
    PendingApproval,
>)
    ensures
        rest@ == rows@.filter(fresh_at(now@, ttl as int)),
{
    split(rows, &Criterion::Stale(*now, ttl)).1
}

/// The rows of `rows` whose countdown still runs at `now`, in their order.
pub fn alive_rows(rows: &Vec<PendingApproval>, now: &Timestamp) -> (rest: Vec<PendingApproval>)
    ensures
        rest@ == rows@.filter(alive_at(now@)),
{
    split(rows, &Criterion::Due(*now)).1
}

/// The rows of `rows` whose countdown has run out at `now`, in their order.
pub fn due_rows(rows: &Vec<PendingApproval>, now: &Timestamp) -> (due: Vec<PendingApproval>)
    ensures
        due@ == rows@.filter(due_at(now@)),
{
    split(rows, &Criterion::Due(*now)).0
}

/// A copy of `rows`.
pub fn copy_rows(rows: &Vec<PendingApproval>) -> (copy: Vec<PendingApproval>)
    ensures
        copy@ == rows@,
{
    let mut copy: Vec<PendingApproval> = Vec::new();
    let n = rows.len();
    let mut i: usize = 0;
    while i < n
        invariant
            n == rows.len(),
            i <= n,
            copy@ == rows@.take(i as int),
        decreases n - i,
    {
        proof {
            lemma_take_next(rows@, i as int);
        }
        copy.push(rows[i]);
        i += 1;
    }
    proof {
        assert(rows@.take(n as int) =~= rows@);
    }
    copy
}

/// The relation of open approvals.
pub struct PendingApprovalTable {
    rows: Vec<PendingApproval>,
}

impl View for PendingApprovalTable {
    type V = Seq<PendingApproval>;

    closed spec fn view(&self) -> Seq<PendingApproval> {
        self.rows@
    }
}

impl PendingApprovalTable {
    /// The constraints of the relation: each submission and each message has at most one row.
    pub open spec fn wf(&self) -> bool {
        keys_unique(self@)
    }

    /// The empty relation.
    pub fn new() -> (table: PendingApprovalTable)
        ensures
            table@ == Seq::<PendingApproval>::empty(),
            table.wf(),
    {
        PendingApprovalTable { rows: Vec::new() }
    }

    /// All rows, oldest insertion first.
    pub fn rows(&self) -> (rows: Vec<PendingApproval>)
        ensures
            rows@ == self@,
    {
        copy_rows(&self.rows)
    }

    /// The number of rows.
    pub fn len(&self) -> (n: usize)
        ensures
            n == self@.len(),
    {
        self.rows.len()
    }

    /// The row that `selector` names.
    pub fn find(&self, selector: &RemovePendingApproval) -> (result: Result<PendingApproval, Error>)
        ensures
            result == removal(self@, *selector),
            result matches Ok(row) ==> self@.contains(row) && selector.selects(row),
            result is Err ==> forall|i: int| 0 <= i < self@.len() ==> !selector.selects(#[trigger] self@[i]),
    {
        first_selected(&self.rows, selector)
    }

    /// What inserting `add` at `now` would return, without inserting.
    pub fn check_insert(&self, add: &AddPendingApproval, now: &Timestamp) -> (result: Result<
        PendingApproval,
        Error,
    >)
        ensures
            result == insertion(self@, *add, *now),
    {
        if add.message_id > i64::MAX as u64 {
            return Err(Error::StoreError);
        }
        let by_submission = first_selected(
            &self.rows,
            &RemovePendingApproval::SubmissionId(add.submission_id),
        );
        let by_message = first_selected(
            &self.rows,
            &RemovePendingApproval::MessageId(add.message_id),
        );
        proof {
            let rows = self.rows@;
            if by_submission is Ok {
                let hit = by_submission->Ok_0;
                let k = choose|k: int| 0 <= k < rows.len() && rows[k] == hit;
                assert(rows[k].submission_id == add.submission_id);
            }
            if by_message is Ok {
                let hit = by_message->Ok_0;
                let k = choose|k: int| 0 <= k < rows.len() && rows[k] == hit;
                assert(rows[k].message_id == add.message_id);
            }
            if holds_submission(rows, add.submission_id as int) {
                let k = choose|k: int|
                    0 <= k < rows.len() && (#[trigger] rows[k]).submission_id
                        == add.submission_id;
                assert(RemovePendingApproval::SubmissionId(add.submission_id).selects(rows[k]));
            }
            if holds_message(rows, add.message_id as int) {
                let k = choose|k: int|
                    0 <= k < rows.len() && (#[trigger] rows[k]).message_id == add.message_id;
                assert(RemovePendingApproval::MessageId(add.message_id).selects(rows[k]));
            }
        }
        if by_submission.is_ok() || by_message.is_ok() {
            return Err(Error::DuplicateApproval);
        }
        Ok(
            PendingApproval {
                submission_id: add.submission_id,
                message_id: add.message_id as i64,
                date: *now,
            },
        )
    }

    /// Inserts the row for `add`, dated `now`, at the end, and returns it. Fails, and changes
    /// nothing, with `StoreError` where the message id does not fit the column, and with
    /// `DuplicateApproval` where the submission or the message already has a row.
    pub fn insert(&mut self, add: &AddPendingApproval, now: &Timestamp) -> (result: Result<
        PendingApproval,
        Error,
    >)
        requires
            old(self).wf(),
        ensures
            final(self).wf(),
            result == insertion(old(self)@, *add, *now),
            final(self)@ == match result {
                Ok(row) => old(self)@.push(row),
                Err(_) => old(self)@,
            },
    {
        let row = self.check_insert(add, now)?;
        self.rows.push(row);
        proof {
            let before = old(self)@;
            let after = self.rows@;
            assert forall|i: int, j: int| 0 <= i < j < after.len() implies (
            #[trigger] after[i]).submission_id != (#[trigger] after[j]).submission_id
                && after[i].message_id != after[j].message_id by {
                assert(after[i] == before[i]);
                if j < before.len() {
                    assert(after[j] == before[j]);
                }
            }
        }
        Ok(row)
    }

    /// Deletes the row that `selector` names and returns it.
    pub fn remove(&mut self, selector: &RemovePendingApproval) -> (result: Result<
        PendingApproval,
        Error,
    >)
        requires
            old(self).wf(),
        ensures
            final(self).wf(),
            result == removal(old(self)@, *selector),
            final(self)@ == old(self)@.filter(spared_by(*selector)),
            result is Err ==> final(self)@ == old(self)@,
            result matches Ok(row) ==> old(self)@.contains(row) && selector.selects(row)
                && final(self)@ == old(self)@.filter(other_than(row)),
    {
        let found = first_selected(&self.rows, selector);
        match found {
            Ok(row) => {
                let parts = split(&self.rows, &Criterion::Selected(*selector));
                proof {
                    lemma_filter_keeps_keys_unique(self.rows@, spared_by(*selector));
                    lemma_removal_evicts(self.rows@, *selector);
                }
                self.rows = parts.1;
                Ok(row)
            },
            Err(e) => {
                proof {
                    lemma_filter_all(self.rows@, spared_by(*selector));
                }
                Err(e)
            },
        }
    }

    /// Deletes every row that is older than `ttl` microseconds at `now` and returns them.
    pub fn sweep(&mut self, now: &Timestamp, ttl: i64) -> (swept: Vec<PendingApproval>)
        requires
            old(self).wf(),
        ensures
            final(self).wf(),
            swept@ == old(self)@.filter(stale_at(now@, ttl as int)),
            final(self)@ == old(self)@.filter(fresh_at(now@, ttl as int)),
    {
        let parts = split(&self.rows, &Criterion::Stale(*now, ttl));
        proof {
            lemma_filter_keeps_keys_unique(self.rows@, fresh_at(now@, ttl as int));
        }
        self.rows = parts.1;
        parts.0
    }

    /// Deletes every row whose countdown has run out at `now` and returns them.
    pub fn expire_due(&mut self, now: &Timestamp) -> (due: Vec<PendingApproval>)
        requires
            old(self).wf(),
        ensures
            final(self).wf(),
            due@ == old(self)@.filter(due_at(now@)),
            final(self)@ == old(self)@.filter(alive_at(now@)),
    {
        let parts = split(&self.rows, &Criterion::Due(*now));
        proof {
            lemma_filter_keeps_keys_unique(self.rows@, alive_at(now@));
        }
        self.rows = parts.1;
        parts.0
    }
}

/// The operations of the approval store.
pub trait PendingApprovalHelpers {
    /// Opens the approval `add_pending_approval`, dated `now`, and returns the stored row.
    /// Fails, and changes nothing, with `StoreError` where the message id does not fit the
    /// column or no submission has that id, and with `DuplicateApproval` where the submission
    /// or the message already has an open approval.
    fn add_pending_approval(
        executor: &mut Database,
        add_pending_approval: AddPendingApproval,
        now: &Timestamp,
    ) -> (result: Result<PendingApproval, Error>)
        requires
            old(executor).wf(),
        ensures
            final(executor).wf(),
            final(executor).submissions == old(executor).submissions,
            result == addition(
                old(executor).submissions@,
                old(executor).pending_approvals@,
                add_pending_approval,
                *now,
            ),
            final(executor).pending_approvals@ == match result {
                Ok(row) => old(executor).pending_approvals@.push(row),
                Err(_) => old(executor).pending_approvals@,
            },
    ;

    /// Deletes the approval that `remove_pending_approval` names and returns it. Fails with
    /// `NotFound`, and changes nothing, where there is none.
    fn remove_pending_approval(
        executor: &mut Database,
        remove_pending_approval: RemovePendingApproval,
    ) -> (result: Result<PendingApproval, Error>)
        requires
            old(executor).wf(),
        ensures
            final(executor).wf(),
            old(executor).settled() ==> final(executor).settled(),
            final(executor).submissions == old(executor).submissions,
            result == removal(old(executor).pending_approvals@, remove_pending_approval),
            final(executor).pending_approvals@ == old(executor).pending_approvals@.filter(
                spared_by(remove_pending_approval),
            ),
            result is Err ==> final(executor).pending_approvals@ == old(executor).pending_approvals@,
            result matches Ok(row) ==> old(executor).pending_approvals@.contains(row)
                && remove_pending_approval.selects(row) && final(executor).pending_approvals@
                == old(executor).pending_approvals@.filter(other_than(row)),
    ;

    /// Deletes every approval that is older than `ttl` microseconds at `now`, and returns
    /// them where there are any.
    fn remove_expired_approvals(executor: &mut Database, now: &Timestamp, ttl: i64) -> (result:
        Option<Vec<PendingApproval>>)
        requires
            old(executor).wf(),
        ensures
            final(executor).wf(),
            old(executor).settled() ==> final(executor).settled(),
            final(executor).submissions == old(executor).submissions,
            final(executor).pending_approvals@ == old(executor).pending_approvals@.filter(
                fresh_at(now@, ttl as int),
            ),
            match result {
                Some(swept) => swept@.len() > 0 && swept@ == old(executor).pending_approvals@.filter(stale_at(now@, ttl as int)),
                None => old(executor).pending_approvals@.filter(stale_at(now@, ttl as int)).len()
                    == 0,
            },
    ;
}

impl PendingApprovalHelpers for PendingApproval {
    fn add_pending_approval(
        executor: &mut Database,
        add_pending_approval: AddPendingApproval,
        now: &Timestamp,
    ) -> (result: Result<PendingApproval, Error>) {
        let row = executor.pending_approvals.check_insert(&add_pending_approval, now)?;
        if !executor.submissions.contains_id(add_pending_approval.submission_id) {
            return Err(Error::StoreError);
        }
        executor.pending_approvals.insert(&add_pending_approval, now)
    }

    fn remove_pending_approval(
        executor: &mut Database,
        remove_pending_approval: RemovePendingApproval,
    ) -> (result: Result<PendingApproval, Error>) {
        proof {
            lemma_filter_keeps_references(
                executor.submissions@,
                executor.pending_approvals@,
                spared_by(remove_pending_approval),
            );
        }
        executor.pending_approvals.remove(&remove_pending_approval)
    }

    fn remove_expired_approvals(executor: &mut Database, now: &Timestamp, ttl: i64) -> (result:
        Option<Vec<PendingApproval>>) {
        proof {
            lemma_filter_keeps_references(
                executor.submissions@,
                executor.pending_approvals@,
                fresh_at(now@, ttl as int),
            );
        }
        let swept = executor.pending_approvals.sweep(now, ttl);
        if swept.len() == 0 {
            None
        } else {
            Some(swept)
        }
    }
}

} // verus!
