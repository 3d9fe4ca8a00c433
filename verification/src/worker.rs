use vstd::prelude::*;
use crate::error::{MigrationError, MigrationErrorModel, concat3};
use crate::ident::text_equals;
use crate::migration::{SchemaMigration, SchemaMigrationModel};
use crate::records::{RecordModel, SchemaMigrationRecordMetadata, SchemaMigrationState};

verus! {

/// A migration of a pending schema together with the record, if any, of an
/// earlier run of a migration with the same id for the same component.
#[derive(Debug)]
pub struct MigrationLookup {
    pub migration: SchemaMigration,
    pub existing: Option<SchemaMigrationRecordMetadata>,
}

/// The model of a [`MigrationLookup`].
pub ghost struct LookupModel {
    pub migration: SchemaMigrationModel,
    pub existing: Option<RecordModel>,
}

impl View for MigrationLookup {
    type V = LookupModel;

    open spec fn view(&self) -> LookupModel {
        LookupModel {
            migration: self.migration@,
            existing: match self.existing {
                Some(r) => Some(r@),
                None => None,
            },
        }
    }
}

/// The models of a sequence of lookups.
pub open spec fn lookups_model(lookups: Seq<MigrationLookup>) -> Seq<LookupModel> {
    lookups.map_values(|l: MigrationLookup| l@)
}

/// The models of a sequence of migrations.
pub open spec fn migrations_model(migrations: Seq<SchemaMigration>) -> Seq<SchemaMigrationModel> {
    migrations.map_values(|m: SchemaMigration| m@)
}

/// An earlier run of this migration id used handler code with another hash.
pub open spec fn handler_changed(l: LookupModel) -> bool {
    l.existing is Some && l.existing->0.handler_hash != l.migration.handler_hash
}

/// An earlier run of this migration id completed.
pub open spec fn already_completed(l: LookupModel) -> bool {
    l.existing is Some && l.existing->0.state == SchemaMigrationState::Completed
}

/// The error that refuses to run a migration whose handler changed after it ran.
pub open spec fn handler_changed_error(id: Seq<char>) -> MigrationErrorModel {
    MigrationErrorModel::BadRequest {
        short_msg: "MigrationHandlerChanged"@,
        msg: "Migration \""@ + id + "\" has already run with different code. Use a new migration id."@,
    }
}

/// The migrations that still have to run, in schema order: those without a
/// completed earlier run. Refused, naming the first such migration, when an
/// earlier run of one of them used different handler code; a migration that
/// is refused this way stops the walk, as the ones before it were already
/// taken.
pub open spec fn select_pending(lookups: Seq<LookupModel>) -> Result<
    Seq<SchemaMigrationModel>,
    MigrationErrorModel,
>
    decreases lookups.len(),
{
    if lookups.len() == 0 {
        Ok(Seq::empty())
    } else {
        match select_pending(lookups.drop_last()) {
            Err(e) => Err(e),
            Ok(pending) => {
                let l = lookups.last();
                if handler_changed(l) {
                    Err(handler_changed_error(l.migration.id))
                } else if already_completed(l) {
                    Ok(pending)
                } else {
                    Ok(pending.push(l.migration))
                }
            },
        }
    }
}

/// Once the walk is refused, it stays refused with the same error.
pub proof fn lemma_select_pending_err_persists(lookups: Seq<LookupModel>, k: int)
    requires
        0 <= k <= lookups.len(),
        select_pending(lookups.subrange(0, k)) is Err,
    ensures
        select_pending(lookups) == select_pending(lookups.subrange(0, k)),
    decreases lookups.len() - k,
{
    if k < lookups.len() {
        let next = lookups.subrange(0, k + 1);
        assert(next.drop_last() =~= lookups.subrange(0, k));
        lemma_select_pending_err_persists(lookups, k + 1);
    } else {
        assert(lookups.subrange(0, k) =~= lookups);
    }
}

/// Every migration of the schema has a completed run.
pub open spec fn all_completed(lookups: Seq<LookupModel>) -> bool {
    forall|i: int| 0 <= i < lookups.len() ==> already_completed(#[trigger] lookups[i])
}

/// The error that refuses a migration whose handler changed.
fn handler_changed_err(id: &String) -> (e: MigrationError)
    ensures
        e@ == handler_changed_error(id@),
{
    MigrationError::BadRequest {
        short_msg: String::from_str("MigrationHandlerChanged"),
        msg: concat3(
            "Migration \"",
            id.as_str(),
            "\" has already run with different code. Use a new migration id.",
        ),
    }
}

/// The longest wait before the first retry, in milliseconds.
pub const INITIAL_BACKOFF_MS: u64 = 10;

/// The longest wait before any retry, in milliseconds.
pub const MAX_BACKOFF_MS: u64 = 5000;

/// The longest wait after `failures` earlier consecutive failures: 10 ms,
/// doubled for each earlier failure, capped at 5 s.
pub open spec fn backoff_ceiling(failures: nat) -> int
    decreases failures,
{
    if failures == 0 {
        INITIAL_BACKOFF_MS as int
    } else {
        let doubled = 2 * backoff_ceiling((failures - 1) as nat);
        if doubled < MAX_BACKOFF_MS {
            doubled
        } else {
            MAX_BACKOFF_MS as int
        }
    }
}

/// Once the cap is reached, it stays reached.
proof fn lemma_backoff_capped(k: nat, failures: nat)
    requires
        k <= failures,
        backoff_ceiling(k) == MAX_BACKOFF_MS,
    ensures
        backoff_ceiling(failures) == MAX_BACKOFF_MS,
    decreases failures - k,
{
    if k < failures {
        lemma_backoff_capped(k, (failures - 1) as nat);
    }
}

/// Law: the wait before a retry never exceeds 5 s, and never shrinks as
/// failures accumulate.
pub proof fn lemma_backoff_bounded_and_growing(failures: nat)
    ensures
        0 < backoff_ceiling(failures) <= MAX_BACKOFF_MS,
        backoff_ceiling(failures) <= backoff_ceiling(failures + 1),
    decreases failures,
{
    if failures > 0 {
        lemma_backoff_bounded_and_growing((failures - 1) as nat);
    }
}

/// Law: the wait after `failures` earlier failures is 10 ms times two to the
/// power of `failures`, or 5 s where that would be longer.
pub proof fn lemma_backoff_closed_form(failures: nat)
    ensures
        backoff_ceiling(failures) == if INITIAL_BACKOFF_MS * vstd::arithmetic::power2::pow2(
            failures,
        ) < MAX_BACKOFF_MS {
            INITIAL_BACKOFF_MS * vstd::arithmetic::power2::pow2(failures)
        } else {
            MAX_BACKOFF_MS as int
        },
    decreases failures,
{
    if failures == 0 {
        vstd::arithmetic::power2::lemma2_to64();
    } else {
        lemma_backoff_closed_form((failures - 1) as nat);
        vstd::arithmetic::power2::lemma_pow2_unfold(failures);
    }
}

/// What the loop that runs migrations does after a pass.
#[derive(Clone, Copy, Debug, PartialEq, Eq, Structural)]
pub enum WorkerAction {
    /// The pass succeeded: go on at once.
    Continue,
    /// The pass failed: report it and wait for a random part of
    /// `ceiling_ms` milliseconds before the next one.
    Retry { ceiling_ms: u64 },
}

/// Drives the schema migrations of a deployment: keeps the failure count of
/// the loop that runs them and decides which migrations are still to run.
pub struct SchemaMigrationWorker {
    consecutive_failures: u32,
}

impl SchemaMigrationWorker {
    /// A worker that has not failed yet.
    pub fn new() -> (worker: Self)
        ensures
            worker.failures() == 0,
    {
        SchemaMigrationWorker { consecutive_failures: 0 }
    }

    /// How many passes in a row have failed.
    pub closed spec fn failures(&self) -> nat {
        self.consecutive_failures as nat
    }

    /// The longest wait after `failures` earlier consecutive failures.
    pub fn backoff_ceiling_ms(failures: u32) -> (ms: u64)
        ensures
            ms == backoff_ceiling(failures as nat),
    {
        let mut ceiling: u64 = INITIAL_BACKOFF_MS;
        let mut k: u32 = 0;
        while k < failures
            invariant
                k <= failures,
                ceiling == backoff_ceiling(k as nat),
                ceiling <= MAX_BACKOFF_MS,
            decreases failures - k,
        {
            if ceiling == MAX_BACKOFF_MS {
                proof {
                    lemma_backoff_capped(k as nat, failures as nat);
                }
                return ceiling;
            }
            let doubled = 2 * ceiling;
            ceiling = if doubled < MAX_BACKOFF_MS {
                doubled
            } else {
                MAX_BACKOFF_MS
            };
            k = k + 1;
        }
        ceiling
    }

    /// The outcome of a pass of the loop: a success resets the failure count;
    /// a failure waits longer the more failures came before it.
    pub fn record_pass(&mut self, succeeded: bool) -> (action: WorkerAction)
        ensures
            succeeded ==> action == WorkerAction::Continue && final(self).failures() == 0,
            !succeeded ==> action == (WorkerAction::Retry {
                ceiling_ms: backoff_ceiling(old(self).failures()) as u64,
            }) && final(self).failures() == if old(self).failures() < u32::MAX {
                old(self).failures() + 1
            } else {
                old(self).failures()
            },
    {
        if succeeded {
            self.consecutive_failures = 0;
            WorkerAction::Continue
        } else {
            let ceiling_ms = Self::backoff_ceiling_ms(self.consecutive_failures);
            if self.consecutive_failures < u32::MAX {
                self.consecutive_failures = self.consecutive_failures + 1;
            }
            WorkerAction::Retry { ceiling_ms }
        }
    }

    /// The migrations of a pending schema that still have to run, in order,
    /// given the earlier record of each; refused when a migration's handler
    /// changed after it ran.
    pub fn pending_migrations_for_schema(lookups: &Vec<MigrationLookup>) -> (pending: Result<
        Vec<SchemaMigration>,
        MigrationError,
    >)
        ensures
            match pending {
                Ok(ms) => select_pending(lookups_model(lookups@)) == Ok::<
                    Seq<SchemaMigrationModel>,
                    MigrationErrorModel,
                >(migrations_model(ms@)),
                Err(e) => select_pending(lookups_model(lookups@)) == Err::<
                    Seq<SchemaMigrationModel>,
                    MigrationErrorModel,
                >(e@),
            },
            (forall|i: int|
                0 <= i < lookups@.len() ==> !handler_changed(#[trigger] lookups_model(lookups@)[i]))
                ==> (pending matches Ok(ms) && migrations_model(ms@)
                == migrations_without_completed_run(lookups_model(lookups@))),
    {
        proof {
            if forall|i: int|
                0 <= i < lookups@.len() ==> !handler_changed(#[trigger] lookups_model(lookups@)[i]) {
                lemma_pending_are_uncompleted_in_order(lookups_model(lookups@));
            }
        }
        let mut result: Vec<SchemaMigration> = Vec::new();
        let n = lookups.len();
        let ghost all = lookups_model(lookups@);
        assert(all.subrange(0, 0) =~= Seq::<LookupModel>::empty());
        assert(migrations_model(result@) =~= Seq::<SchemaMigrationModel>::empty());
        for i in 0..n
            invariant
                n == lookups@.len(),
                all == lookups_model(lookups@),
                select_pending(all.subrange(0, i as int)) == Ok::<
                    Seq<SchemaMigrationModel>,
                    MigrationErrorModel,
                >(migrations_model(result@)),
        {
            let lookup = &lookups[i];
            let ghost prefix = all.subrange(0, i + 1);
            proof {
                assert(prefix.drop_last() =~= all.subrange(0, i as int));
                assert(prefix.last() == lookup@);
            }
            let mut skip = false;
            match &lookup.existing {
                Some(existing) => {
                    if !text_equals(existing.handler_hash.as_str(), lookup.migration.handler_hash.as_str()) {
                        proof {
                            lemma_select_pending_err_persists(all, i + 1);
                        }
                        return Err(handler_changed_err(&lookup.migration.id));
                    }
                    skip = existing.state == SchemaMigrationState::Completed;
                },
                None => {},
            }
            if !skip {
                let ghost before = result@;
                result.push(lookup.migration.duplicate());
                proof {
                    assert(migrations_model(result@) =~= migrations_model(before).push(
                        lookup.migration@,
                    ));
                }
            }
        }
        assert(all.subrange(0, n as int) =~= all);
        Ok(result)
    }

    /// Whether every migration of a schema has a completed run, given the
    /// earlier record of each; a schema without migrations is complete.
    pub fn migrations_complete_for_schema(lookups: &Vec<MigrationLookup>) -> (complete: bool)
        ensures
            complete == all_completed(lookups_model(lookups@)),
    {
        let n = lookups.len();
        for i in 0..n
            invariant
                n == lookups@.len(),
                forall|j: int| 0 <= j < i ==> already_completed(#[trigger] lookups_model(lookups@)[j]),
        {
            match &lookups[i].existing {
                None => {
                    assert(!already_completed(lookups_model(lookups@)[i as int]));
                    return false;
                },
                Some(existing) => {
                    if existing.state != SchemaMigrationState::Completed {
                        assert(!already_completed(lookups_model(lookups@)[i as int]));
                        return false;
                    }
                },
            }
        }
        true
    }
}

/// A pass over the migrations of one pending schema: hands out the pending
/// migrations one by one, in order, and keeps the ids of those that failed;
/// a failure does not stop the pass.
pub struct SchemaMigrationPass {
    pending: Vec<SchemaMigration>,
    next: usize,
    failed: Vec<String>,
}

/// The model of a [`SchemaMigrationPass`].
pub ghost struct PassModel {
    pub pending: Seq<SchemaMigrationModel>,
    pub next: nat,
    pub failed: Seq<Seq<char>>,
}

impl View for SchemaMigrationPass {
    type V = PassModel;

    closed spec fn view(&self) -> PassModel {
        PassModel {
            pending: migrations_model(self.pending@),
            next: self.next as nat,
            failed: self.failed@.map_values(|s: String| s@),
        }
    }
}

impl SchemaMigrationPass {
    /// The pass over the migrations still to run, given the earlier record of
    /// each migration of the schema; refused when a migration's handler
    /// changed after it ran.
    pub fn new(lookups: &Vec<MigrationLookup>) -> (pass: Result<Self, MigrationError>)
        ensures
            match pass {
                Ok(p) => select_pending(lookups_model(lookups@)) == Ok::<
                    Seq<SchemaMigrationModel>,
                    MigrationErrorModel,
                >(p@.pending) && p@.next == 0 && p@.failed == Seq::<Seq<char>>::empty(),
                Err(e) => select_pending(lookups_model(lookups@)) == Err::<
                    Seq<SchemaMigrationModel>,
                    MigrationErrorModel,
                >(e@),
            },
    {
        match SchemaMigrationWorker::pending_migrations_for_schema(lookups) {
            Ok(pending) => {
                let pass = SchemaMigrationPass { pending, next: 0, failed: Vec::new() };
                assert(pass@.failed =~= Seq::<Seq<char>>::empty());
                Ok(pass)
            },
            Err(e) => Err(e),
        }
    }

    /// How many migrations the pass runs.
    pub fn len(&self) -> (n: usize)
        ensures
            n == self@.pending.len(),
    {
        self.pending.len()
    }

    /// The next migration to run, if any is left.
    pub fn next_migration(&mut self) -> (migration: Option<SchemaMigration>)
        requires
            old(self)@.next <= old(self)@.pending.len(),
        ensures
            final(self)@.next <= final(self)@.pending.len(),
            old(self)@.next < old(self)@.pending.len() ==> (migration matches Some(m) && m@ == old(
                self,
            )@.pending[old(self)@.next as int] && final(self)@ == (PassModel {
                next: old(self)@.next + 1,
                ..old(self)@
            })),
            old(self)@.next == old(self)@.pending.len() ==> migration is None && final(self)@ == old(
                self,
            )@,
    {
        if self.next < self.pending.len() {
            let m = self.pending[self.next].duplicate();
            self.next = self.next + 1;
            Some(m)
        } else {
            None
        }
    }

    /// The migration last handed out failed: its id is kept, and the pass
    /// goes on.
    pub fn migration_failed(&mut self)
        requires
            0 < old(self)@.next <= old(self)@.pending.len(),
        ensures
            final(self)@ == (PassModel {
                failed: old(self)@.failed.push(old(self)@.pending[old(self)@.next - 1].id),
                ..old(self)@
            }),
    {
        let id = self.pending[self.next - 1].id.clone();
        let ghost before = self.failed@;
        self.failed.push(id);
        proof {
            assert(self.failed@ =~= before.push(id));
            assert(self.failed@.map_values(|s: String| s@) =~= before.map_values(|s: String| s@).push(
                id@,
            ));
        }
    }

    /// The ids of the migrations that failed, in the order they ran.
    pub fn failed(&self) -> (ids: &Vec<String>)
        ensures
            ids@.map_values(|s: String| s@) == self@.failed,
    {
        &self.failed
    }
}

/// Law: when no migration of a schema is left to run, every one of them has
/// a completed run, so the schema's migrations are complete.
pub proof fn lemma_nothing_pending_means_complete(lookups: Seq<LookupModel>)
    requires
        select_pending(lookups) == Ok::<Seq<SchemaMigrationModel>, MigrationErrorModel>(
            Seq::empty(),
        ),
    ensures
        all_completed(lookups),
    decreases lookups.len(),
{
    if lookups.len() > 0 {
        let rest = lookups.drop_last();
        match select_pending(rest) {
            Ok(p) => {
                if !handler_changed(lookups.last()) && !already_completed(lookups.last()) {
                    assert(p.push(lookups.last().migration).len() > 0);
                }
                lemma_nothing_pending_means_complete(rest);
                assert forall|i: int| 0 <= i < lookups.len() implies already_completed(
                    #[trigger] lookups[i],
                ) by {
                    if i < lookups.len() - 1 {
                        assert(rest[i] == lookups[i]);
                    }
                }
            },
            Err(_) => {},
        }
    }
}

/// Law: when every migration of a schema has a completed run with the
/// handler code it has now, none is left to run.
pub proof fn lemma_complete_and_unchanged_means_nothing_pending(lookups: Seq<LookupModel>)
    requires
        all_completed(lookups),
        forall|i: int| 0 <= i < lookups.len() ==> !handler_changed(#[trigger] lookups[i]),
    ensures
        select_pending(lookups) == Ok::<Seq<SchemaMigrationModel>, MigrationErrorModel>(
            Seq::empty(),
        ),
    decreases lookups.len(),
{
    if lookups.len() > 0 {
        let rest = lookups.drop_last();
        assert forall|i: int| 0 <= i < rest.len() implies already_completed(#[trigger] rest[i])
            && !handler_changed(rest[i]) by {
            assert(rest[i] == lookups[i]);
        }
        lemma_complete_and_unchanged_means_nothing_pending(rest);
        assert(already_completed(lookups[lookups.len() - 1]));
        assert(!handler_changed(lookups[lookups.len() - 1]));
    }
}

/// Law: the walk is refused exactly when some migration's handler changed
/// after it ran.
pub proof fn lemma_refused_iff_handler_changed(lookups: Seq<LookupModel>)
    ensures
        select_pending(lookups) is Err <==> exists|i: int|
            0 <= i < lookups.len() && handler_changed(#[trigger] lookups[i]),
    decreases lookups.len(),
{
    if lookups.len() > 0 {
        let rest = lookups.drop_last();
        lemma_refused_iff_handler_changed(rest);
        if exists|i: int| 0 <= i < rest.len() && handler_changed(#[trigger] rest[i]) {
            let i = choose|i: int| 0 <= i < rest.len() && handler_changed(#[trigger] rest[i]);
            assert(lookups[i] == rest[i]);
        }
        if exists|i: int| 0 <= i < lookups.len() && handler_changed(#[trigger] lookups[i]) {
            let i = choose|i: int| 0 <= i < lookups.len() && handler_changed(#[trigger] lookups[i]);
            if i < lookups.len() - 1 {
                assert(rest[i] == lookups[i]);
            }
        }
    }
}

/// Law: a refusal names the first migration, in schema order, whose handler
/// changed after it ran.
pub proof fn lemma_refusal_names_first_changed(lookups: Seq<LookupModel>, i: int)
    requires
        0 <= i < lookups.len(),
        handler_changed(lookups[i]),
        forall|j: int| 0 <= j < i ==> !handler_changed(#[trigger] lookups[j]),
    ensures
        select_pending(lookups) == Err::<Seq<SchemaMigrationModel>, MigrationErrorModel>(
            handler_changed_error(lookups[i].migration.id),
        ),
{
    let before = lookups.subrange(0, i);
    let upto = lookups.subrange(0, i + 1);
    lemma_refused_iff_handler_changed(before);
    if exists|j: int| 0 <= j < before.len() && handler_changed(#[trigger] before[j]) {
        let j = choose|j: int| 0 <= j < before.len() && handler_changed(#[trigger] before[j]);
        assert(before[j] == lookups[j]);
    }
    assert(upto.drop_last() =~= before);
    assert(upto.last() == lookups[i]);
    lemma_select_pending_err_persists(lookups, i + 1);
}

/// The migrations of the lookups that have no completed run, in the order of
/// the lookups.
pub open spec fn migrations_without_completed_run(lookups: Seq<LookupModel>) -> Seq<
    SchemaMigrationModel,
> {
    lookups.filter(|l: LookupModel| !already_completed(l)).map_values(
        |l: LookupModel| l.migration,
    )
}

/// Law: when no migration's handler changed, the migrations that still have
/// to run are exactly those without a completed run, in schema order.
pub proof fn lemma_pending_are_uncompleted_in_order(lookups: Seq<LookupModel>)
    requires
        forall|i: int| 0 <= i < lookups.len() ==> !handler_changed(#[trigger] lookups[i]),
    ensures
        select_pending(lookups) == Ok::<Seq<SchemaMigrationModel>, MigrationErrorModel>(
            migrations_without_completed_run(lookups),
        ),
    decreases lookups.len(),
{
    reveal_with_fuel(Seq::<LookupModel>::filter, 1);
    let pred = |l: LookupModel| !already_completed(l);
    let f = |l: LookupModel| l.migration;
    if lookups.len() == 0 {
        assert(migrations_without_completed_run(lookups) =~= Seq::<SchemaMigrationModel>::empty());
    } else {
        let rest = lookups.drop_last();
        assert forall|i: int| 0 <= i < rest.len() implies !handler_changed(#[trigger] rest[i]) by {
            assert(rest[i] == lookups[i]);
        }
        lemma_pending_are_uncompleted_in_order(rest);
        let last = lookups.last();
        assert(!handler_changed(lookups[lookups.len() - 1]));
        assert(lookups.filter(pred) == if pred(last) {
            rest.filter(pred).push(last)
        } else {
            rest.filter(pred)
        });
        if pred(last) {
            assert(rest.filter(pred).push(last).map_values(f) =~= rest.filter(pred).map_values(
                f,
            ).push(last.migration));
        }
    }
}

} // verus!
