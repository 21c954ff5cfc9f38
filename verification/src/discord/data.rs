//! The registry of open approvals: the relation in the store and its cache in memory.

use crate::error::Error;
use crate::models::database::Database;
use crate::models::pending_approvals::{
    addition, alive_at, alive_rows, copy_rows, first_selected, fresh_at, fresh_rows, other_than,
    removal, stale_at, without, AddPendingApproval, PendingApproval, PendingApprovalHelpers,
    RemovePendingApproval,
};
use crate::time::Timestamp;
use vstd::prelude::*;

verus! {

/// The open approvals as the bot remembers them, oldest first.
pub struct YuriData {
    pending_approvals: Vec<PendingApproval>,
}

impl View for YuriData {
    type V = Seq<PendingApproval>;

    closed spec fn view(&self) -> Seq<PendingApproval> {
        self.pending_approvals@
    }
}

impl YuriData {
    /// The empty cache.
    pub fn new() -> (data: YuriData)
        ensures
            data@ == Seq::<PendingApproval>::empty(),
    {
        YuriData { pending_approvals: Vec::new() }
    }

    /// The number of approvals in the cache.
    pub fn len(&self) -> (n: usize)
        ensures
            n == self@.len(),
    {
        self.pending_approvals.len()
    }

    /// A copy of the cached approvals, oldest first.
    pub fn pending_approvals(&self) -> (rows: Vec<PendingApproval>)
        ensures
            rows@ == self@,
    {
        copy_rows(&self.pending_approvals)
    }

    /// The cached approval that `selector` names.
    pub fn find(&self, selector: &RemovePendingApproval) -> (result: Result<PendingApproval, Error>)
        ensures
            result == removal(self@, *selector),
            result matches Ok(row) ==> self@.contains(row) && selector.selects(row),
            result is Err ==> forall|i: int| 0 <= i < self@.len() ==> !selector.selects(#[trigger] self@[i]),
    {
        first_selected(&self.pending_approvals, selector)
    }

    /// Appends `row`, which the store has accepted.
    pub fn remember(&mut self, row: PendingApproval)
        ensures
            final(self)@ == old(self)@.push(row),
    {
        self.pending_approvals.push(row);
    }

    /// Evicts every entry equal to `row`, which the store has deleted.
    pub fn forget(&mut self, row: &PendingApproval)
        ensures
            final(self)@ == old(self)@.filter(other_than(*row)),
    {
        self.pending_approvals = without(&self.pending_approvals, row);
    }

    /// Replaces the cache by `rows`, the contents of the store.
    pub fn replace(&mut self, rows: Vec<PendingApproval>)
        ensures
            final(self)@ == rows@,
    {
        self.pending_approvals = rows;
    }

    /// Evicts the entries that are older than `ttl` microseconds at `now`.
    pub fn forget_stale(&mut self, now: &Timestamp, ttl: i64)
        ensures
            final(self)@ == old(self)@.filter(fresh_at(now@, ttl as int)),
    {
        self.pending_approvals = fresh_rows(&self.pending_approvals, now, ttl);
    }

    /// Evicts the entries whose countdown has run out at `now`.
    pub fn forget_due(&mut self, now: &Timestamp)
        ensures
            final(self)@ == old(self)@.filter(alive_at(now@)),
    {
        self.pending_approvals = alive_rows(&self.pending_approvals, now);
    }
}

/// The operations of the registry. Each one runs its statement against the store first and
/// touches the cache only where the store has accepted it, so that a cache that mirrors the
/// store keeps mirroring it.
pub trait PendingApprovalsHelpers: View<V = Seq<PendingApproval>> {
    /// Opens an approval: inserts it into the store and appends the stored row to the cache.
    fn add_pending_approval(
        &mut self,
        executor: &mut Database,
        add_pending_approval: AddPendingApproval,
        now: &Timestamp,
    ) -> (result: Result<PendingApproval, Error>)
        requires
            old(executor).wf(),
        ensures
            final(executor).wf(),
            final(executor).submissions == old(executor).submissions,
            result == addition(
                old(executor).submissions@,
                old(executor).pending_approvals@,
                add_pending_approval,
                *now,
            ),
            final(executor).pending_approvals@ == match result {
                Ok(row) => old(executor).pending_approvals@.push(row),
                Err(_) => old(executor).pending_approvals@,
            },
            final(self)@ == match result {
                Ok(row) => old(self)@.push(row),
                Err(_) => old(self)@,
            },
            old(self)@ == old(executor).pending_approvals@ ==> final(self)@ == final(executor).pending_approvals@,
    ;

    /// Closes an approval: deletes the row that the selector names from the store and evicts
    /// it from the cache. Where the store has no such row the result is `NotFound` and neither
    /// the store nor the cache changes.
    fn remove_pending_approval(
        &mut self,
        executor: &mut Database,
        remove_pending_approval: RemovePendingApproval,
    ) -> (result: Result<PendingApproval, Error>)
        requires
            old(executor).wf(),
        ensures
            final(executor).wf(),
            old(executor).settled() ==> final(executor).settled(),
            final(executor).submissions == old(executor).submissions,
            result == removal(old(executor).pending_approvals@, remove_pending_approval),
            match result {
                Ok(row) => {
                    &&& old(executor).pending_approvals@.contains(row)
                    &&& remove_pending_approval.selects(row)
                    &&& final(executor).pending_approvals@ == old(executor).pending_approvals@.filter(other_than(row))
                    &&& final(self)@ == old(self)@.filter(other_than(row))
                },
                Err(_) => {
                    &&& final(executor).pending_approvals@ == old(executor).pending_approvals@
                    &&& final(self)@ == old(self)@
                },
            },
            old(self)@ == old(executor).pending_approvals@ ==> final(self)@ == final(executor).pending_approvals@,
    ;

    /// Replaces the cache by the contents of the store.
    fn populate_pending_approvals(&mut self, executor: &Database)
        ensures
            final(self)@ == executor.pending_approvals@,
    ;

    /// Sweeps the approvals that are older than `ttl` microseconds at `now` out of the store
    /// and out of the cache, and returns the rows that the store has deleted.
    fn remove_expired_approvals(&mut self, executor: &mut Database, now: &Timestamp, ttl: i64) -> (result:
        Option<Vec<PendingApproval>>)
        requires
            old(executor).wf(),
        ensures
            final(executor).wf(),
            old(executor).settled() ==> final(executor).settled(),
            final(executor).submissions == old(executor).submissions,
            final(executor).pending_approvals@ == old(executor).pending_approvals@.filter(
                fresh_at(now@, ttl as int),
            ),
            final(self)@ == old(self)@.filter(fresh_at(now@, ttl as int)),
            match result {
                Some(swept) => swept@.len() > 0 && swept@ == old(executor).pending_approvals@.filter(stale_at(now@, ttl as int)),
                None => old(executor).pending_approvals@.filter(stale_at(now@, ttl as int)).len()
                    == 0,
            },
            old(self)@ == old(executor).pending_approvals@ ==> final(self)@ == final(executor).pending_approvals@,
    ;
}

impl PendingApprovalsHelpers for YuriData {
    fn add_pending_approval(
        &mut self,
        executor: &mut Database,
        add_pending_approval: AddPendingApproval,
        now: &Timestamp,
    ) -> (result: Result<PendingApproval, Error>) {
        let added_approval = PendingApproval::add_pending_approval(
            executor,
            add_pending_approval,
            now,
        )?;
        self.remember(added_approval);
        Ok(added_approval)
    }

    fn remove_pending_approval(
        &mut self,
        executor: &mut Database,
        remove_pending_approval: RemovePendingApproval,
    ) -> (result: Result<PendingApproval, Error>) {
        let removed_approval = PendingApproval::remove_pending_approval(
            executor,
            remove_pending_approval,
        )?;
        self.forget(&removed_approval);
        Ok(removed_approval)
    }

    fn populate_pending_approvals(&mut self, executor: &Database) {
        self.replace(executor.pending_approvals.rows());
    }

    fn remove_expired_approvals(&mut self, executor: &mut Database, now: &Timestamp, ttl: i64) -> (result:
        Option<Vec<PendingApproval>>) {
        let swept = PendingApproval::remove_expired_approvals(executor, now, ttl);
        self.forget_stale(now, ttl);
        swept
    }
}

} // verus!
