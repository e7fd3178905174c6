//! Restoring a replicated audit log entry on another node. The store does the
//! work (parse a snapshot, update, insert, delete, look a row up); the
//! decisions between those steps are made here, one outcome at a time.
use vstd::prelude::*;

use crate::enums::{spec_sync_excluded_tables, AuditAction, AuditTable};

verus! {

/// The kinds of store errors that restoring tells apart.
#[derive(Debug, Clone, Copy, PartialEq, Eq, Structural)]
pub enum StoreErrorKind {
    PrimaryKeyNotSet,
    AttrNotSet,
    RecordNotFound,
    RecordNotUpdated,
    RecordNotInserted,
    UniqueConstraintViolation,
    Other,
}

/// Errors that only mean the snapshot does not describe a whole row: the entry
/// is skipped.
pub open spec fn spec_is_nonfatal(e: StoreErrorKind) -> bool {
    e == StoreErrorKind::PrimaryKeyNotSet || e == StoreErrorKind::AttrNotSet
}

/// Errors of an insert that may mean the row is there already.
pub open spec fn spec_is_idempotent_insert(e: StoreErrorKind) -> bool {
    e == StoreErrorKind::RecordNotInserted || e == StoreErrorKind::UniqueConstraintViolation
}

/// Whether an error only means the snapshot is incomplete.
pub fn is_nonfatal_restore_error(e: StoreErrorKind) -> (res: bool)
    ensures
        res == spec_is_nonfatal(e),
{
    match e {
        StoreErrorKind::PrimaryKeyNotSet | StoreErrorKind::AttrNotSet => true,
        _ => false,
    }
}

/// Whether an insert error may mean that the row exists already.
pub fn is_idempotent_insert_error(e: StoreErrorKind) -> (res: bool)
    ensures
        res == spec_is_idempotent_insert(e),
{
    match e {
        StoreErrorKind::RecordNotInserted | StoreErrorKind::UniqueConstraintViolation => true,
        _ => false,
    }
}

/// Which snapshot of an entry a step works from.
#[derive(Debug, Clone, Copy, PartialEq, Eq, Structural)]
pub enum Snapshot {
    Old,
    New,
}

/// The first step of restoring an entry.
#[derive(Debug, Clone, Copy, PartialEq, Eq, Structural)]
pub enum RestorePlan {
    /// Nothing to do.
    Nothing,
    /// Update the row from the new snapshot, inserting it where it is missing.
    Upsert,
    /// Delete the row that the snapshot names.
    Delete(Snapshot),
    /// Insert a ledger entry from the new snapshot; ledger entries are only
    /// ever inserted.
    InsertLedgerEntry,
}

/// The first step of restoring an entry of `table`.
pub open spec fn spec_restore_plan(table: AuditTable, action: AuditAction, has_old: bool, has_new: bool) -> RestorePlan {
    if table == AuditTable::AuditLogs || table == AuditTable::Local || table == AuditTable::Roles {
        RestorePlan::Nothing
    } else if table == AuditTable::InventoryLedgerEntries {
        if action == AuditAction::Insert && has_new {
            RestorePlan::InsertLedgerEntry
        } else {
            RestorePlan::Nothing
        }
    } else {
        match action {
            AuditAction::Insert | AuditAction::Update => if has_new {
                RestorePlan::Upsert
            } else {
                RestorePlan::Nothing
            },
            AuditAction::HardDelete => if has_old {
                RestorePlan::Delete(Snapshot::Old)
            } else if has_new {
                RestorePlan::Delete(Snapshot::New)
            } else {
                RestorePlan::Nothing
            },
        }
    }
}

/// The first step of restoring an entry: node-local tables are never restored;
/// ledger entries are only inserted; other rows are upserted from the new
/// snapshot, or deleted by the old snapshot (else the new one).
pub fn restore_plan(table: AuditTable, action: AuditAction, has_old: bool, has_new: bool) -> (res: RestorePlan)
    ensures
        res == spec_restore_plan(table, action, has_old, has_new),
{
    match table {
        AuditTable::AuditLogs | AuditTable::Local | AuditTable::Roles => RestorePlan::Nothing,
        AuditTable::InventoryLedgerEntries => {
            if action == AuditAction::Insert && has_new {
                RestorePlan::InsertLedgerEntry
            } else {
                RestorePlan::Nothing
            }
        },
        _ => match action {
            AuditAction::Insert | AuditAction::Update => {
                if has_new {
                    RestorePlan::Upsert
                } else {
                    RestorePlan::Nothing
                }
            },
            AuditAction::HardDelete => {
                if has_old {
                    RestorePlan::Delete(Snapshot::Old)
                } else if has_new {
                    RestorePlan::Delete(Snapshot::New)
                } else {
                    RestorePlan::Nothing
                }
            },
        },
    }
}

/// What follows a step of a restore.
#[derive(Debug, Clone, Copy, PartialEq, Eq, Structural)]
pub enum RestoreNext {
    /// Go on with the plan.
    Proceed,
    /// The entry is restored, or skipped.
    Done,
    /// The restore fails with this error.
    Failed(StoreErrorKind),
    /// The row is missing: parse the new snapshot again and insert it.
    InsertInstead,
    /// Look up whether the ledger entry exists.
    CheckExists,
}

pub open spec fn spec_after_parse(outcome: Result<(), StoreErrorKind>) -> RestoreNext {
    match outcome {
        Ok(()) => RestoreNext::Proceed,
        Err(e) => if spec_is_nonfatal(e) {
            RestoreNext::Done
        } else {
            RestoreNext::Failed(e)
        },
    }
}

/// After parsing a snapshot: an incomplete snapshot skips the entry; any
/// other parse error fails.
pub fn after_parse(outcome: Result<(), StoreErrorKind>) -> (res: RestoreNext)
    ensures
        res == spec_after_parse(outcome),
{
    match outcome {
        Ok(()) => RestoreNext::Proceed,
        Err(e) => if is_nonfatal_restore_error(e) {
            RestoreNext::Done
        } else {
            RestoreNext::Failed(e)
        },
    }
}

pub open spec fn spec_after_update(outcome: Result<(), StoreErrorKind>) -> RestoreNext {
    match outcome {
        Ok(()) => RestoreNext::Done,
        Err(e) => if e == StoreErrorKind::RecordNotFound || e == StoreErrorKind::RecordNotUpdated {
            RestoreNext::InsertInstead
        } else if spec_is_nonfatal(e) {
            RestoreNext::Done
        } else {
            RestoreNext::Failed(e)
        },
    }
}

/// After updating a row: a missing row is inserted instead; an incomplete
/// snapshot skips the entry.
pub fn after_update(outcome: Result<(), StoreErrorKind>) -> (res: RestoreNext)
    ensures
        res == spec_after_update(outcome),
{
    match outcome {
        Ok(()) => RestoreNext::Done,
        Err(StoreErrorKind::RecordNotFound) | Err(StoreErrorKind::RecordNotUpdated) => RestoreNext::InsertInstead,
        Err(e) => if is_nonfatal_restore_error(e) {
            RestoreNext::Done
        } else {
            RestoreNext::Failed(e)
        },
    }
}

pub open spec fn spec_after_insert(outcome: Result<(), StoreErrorKind>) -> RestoreNext {
    match outcome {
        Ok(()) => RestoreNext::Done,
        Err(e) => if spec_is_nonfatal(e) {
            RestoreNext::Done
        } else {
            RestoreNext::Failed(e)
        },
    }
}

/// After inserting a row in place of a missing one.
pub fn after_insert(outcome: Result<(), StoreErrorKind>) -> (res: RestoreNext)
    ensures
        res == spec_after_insert(outcome),
{
    match outcome {
        Ok(()) => RestoreNext::Done,
        Err(e) => if is_nonfatal_restore_error(e) {
            RestoreNext::Done
        } else {
            RestoreNext::Failed(e)
        },
    }
}

pub open spec fn spec_after_delete(outcome: Result<(), StoreErrorKind>) -> RestoreNext {
    match outcome {
        Ok(()) => RestoreNext::Done,
        Err(e) => if e == StoreErrorKind::RecordNotFound || spec_is_nonfatal(e) {
            RestoreNext::Done
        } else {
            RestoreNext::Failed(e)
        },
    }
}

/// After deleting a row: a row that is gone already counts as deleted.
pub fn after_delete(outcome: Result<(), StoreErrorKind>) -> (res: RestoreNext)
    ensures
        res == spec_after_delete(outcome),
{
    match outcome {
        Ok(()) | Err(StoreErrorKind::RecordNotFound) => RestoreNext::Done,
        Err(e) => if is_nonfatal_restore_error(e) {
            RestoreNext::Done
        } else {
            RestoreNext::Failed(e)
        },
    }
}

/// After parsing a ledger entry snapshot: one without an id is skipped.
pub fn after_ledger_parse(outcome: Result<(), StoreErrorKind>, has_id: bool) -> (res: RestoreNext)
    ensures
        res == match outcome {
            Ok(()) => if has_id {
                RestoreNext::Proceed
            } else {
                RestoreNext::Done
            },
            Err(e) => if spec_is_nonfatal(e) {
                RestoreNext::Done
            } else {
                RestoreNext::Failed(e)
            },
        },
{
    match after_parse(outcome) {
        RestoreNext::Proceed => if has_id {
            RestoreNext::Proceed
        } else {
            RestoreNext::Done
        },
        other => other,
    }
}

pub open spec fn spec_after_ledger_insert(outcome: Result<(), StoreErrorKind>) -> RestoreNext {
    match outcome {
        Ok(()) => RestoreNext::Done,
        Err(e) => if spec_is_nonfatal(e) {
            RestoreNext::Done
        } else if spec_is_idempotent_insert(e) {
            RestoreNext::CheckExists
        } else {
            RestoreNext::Failed(e)
        },
    }
}

/// After inserting a ledger entry: an insert refused because the entry may be
/// there already is checked against the store.
pub fn after_ledger_insert(outcome: Result<(), StoreErrorKind>) -> (res: RestoreNext)
    ensures
        res == spec_after_ledger_insert(outcome),
{
    match outcome {
        Ok(()) => RestoreNext::Done,
        Err(e) => if is_nonfatal_restore_error(e) {
            RestoreNext::Done
        } else if is_idempotent_insert_error(e) {
            RestoreNext::CheckExists
        } else {
            RestoreNext::Failed(e)
        },
    }
}

/// After looking a refused ledger entry up: it is restored if it exists;
/// otherwise the insert's error stands.
pub fn after_exists_check(found: bool, insert_error: StoreErrorKind) -> (res: RestoreNext)
    ensures
        res == if found {
            RestoreNext::Done
        } else {
            RestoreNext::Failed(insert_error)
        },
{
    if found {
        RestoreNext::Done
    } else {
        RestoreNext::Failed(insert_error)
    }
}

/// Restoring never fails on an incomplete snapshot: whatever step meets one,
/// the entry is skipped.
pub proof fn law_incomplete_snapshot_never_fails(e: StoreErrorKind)
    requires
        spec_is_nonfatal(e),
    ensures
        spec_after_parse(Err(e)) == RestoreNext::Done,
        spec_after_update(Err(e)) == RestoreNext::Done,
        spec_after_insert(Err(e)) == RestoreNext::Done,
        spec_after_delete(Err(e)) == RestoreNext::Done,
        spec_after_ledger_insert(Err(e)) == RestoreNext::Done,
{
}

/// A node-local table is never restored, whatever the entry holds.
pub proof fn law_local_tables_are_not_restored(table: AuditTable, action: AuditAction, has_old: bool, has_new: bool)
    requires
        spec_sync_excluded_tables().contains(table),
    ensures
        spec_restore_plan(table, action, has_old, has_new) == RestorePlan::Nothing,
{
    let s = spec_sync_excluded_tables();
    let i = choose|i: int| 0 <= i < s.len() && s[i] == table;
    assert(s[i] == table);
}

/// A replicated row that is not a ledger entry is written from the entry's new
/// snapshot, whether the entry records an insert or an update: both are
/// restored the same way, by an upsert when the new snapshot is there and not at
/// all otherwise, whatever the old snapshot.
pub proof fn law_inserts_and_updates_restore_alike(table: AuditTable, has_old: bool, has_new: bool)
    requires
        !spec_sync_excluded_tables().contains(table),
        table != AuditTable::InventoryLedgerEntries,
    ensures
        spec_restore_plan(table, AuditAction::Insert, has_old, has_new) == spec_restore_plan(
            table,
            AuditAction::Update,
            has_old,
            has_new,
        ),
        has_new ==> spec_restore_plan(table, AuditAction::Insert, has_old, has_new) == RestorePlan::Upsert,
        has_new ==> spec_restore_plan(table, AuditAction::Update, has_old, has_new) == RestorePlan::Upsert,
        !has_new ==> spec_restore_plan(table, AuditAction::Insert, has_old, has_new) == RestorePlan::Nothing,
        spec_restore_plan(table, AuditAction::Insert, has_old, has_new) == spec_restore_plan(
            table,
            AuditAction::Insert,
            !has_old,
            has_new,
        ),
{
    lemma_replicated_table(table);
}

/// A replicated row that is not a ledger entry is deleted by a hard-delete
/// entry, named by the old snapshot when there is one, else by the new one; an
/// entry with neither changes nothing.
pub proof fn law_hard_deletes_delete_the_row(table: AuditTable, has_old: bool, has_new: bool)
    requires
        !spec_sync_excluded_tables().contains(table),
        table != AuditTable::InventoryLedgerEntries,
    ensures
        has_old ==> spec_restore_plan(table, AuditAction::HardDelete, has_old, has_new) == RestorePlan::Delete(
            Snapshot::Old,
        ),
        !has_old && has_new ==> spec_restore_plan(table, AuditAction::HardDelete, has_old, has_new)
            == RestorePlan::Delete(Snapshot::New),
        !has_old && !has_new ==> spec_restore_plan(table, AuditAction::HardDelete, has_old, has_new)
            == RestorePlan::Nothing,
{
    lemma_replicated_table(table);
}

/// Ledger entries are only ever inserted, from the new snapshot: an insert entry
/// with a new snapshot inserts one, and no other entry changes the ledger.
pub proof fn law_ledger_entries_are_only_inserted(action: AuditAction, has_old: bool, has_new: bool)
    ensures
        spec_restore_plan(AuditTable::InventoryLedgerEntries, action, has_old, has_new) == (if action
            == AuditAction::Insert && has_new {
            RestorePlan::InsertLedgerEntry
        } else {
            RestorePlan::Nothing
        }),
{
}

proof fn lemma_replicated_table(table: AuditTable)
    requires
        !spec_sync_excluded_tables().contains(table),
    ensures
        table != AuditTable::AuditLogs && table != AuditTable::Local && table != AuditTable::Roles,
{
    let s = spec_sync_excluded_tables();
    assert(s[0] == AuditTable::AuditLogs);
    assert(s[1] == AuditTable::Local);
    assert(s[2] == AuditTable::Roles);
}

/// What each step of a restore does with the store's answer: success moves on
/// (a parse proceeds, a write is done); a missing row makes an update insert
/// the row instead, and makes a delete done; a ledger insert refused because
/// the entry may exist already is checked against the store; an incomplete
/// snapshot skips the entry; any other error fails the restore with that same
/// error.
pub proof fn law_restore_steps_answer_the_store(e: StoreErrorKind)
    ensures
        spec_after_parse(Ok(())) == RestoreNext::Proceed,
        spec_after_update(Ok(())) == RestoreNext::Done,
        spec_after_insert(Ok(())) == RestoreNext::Done,
        spec_after_delete(Ok(())) == RestoreNext::Done,
        spec_after_ledger_insert(Ok(())) == RestoreNext::Done,
        spec_after_update(Err(StoreErrorKind::RecordNotFound)) == RestoreNext::InsertInstead,
        spec_after_update(Err(StoreErrorKind::RecordNotUpdated)) == RestoreNext::InsertInstead,
        spec_after_delete(Err(StoreErrorKind::RecordNotFound)) == RestoreNext::Done,
        spec_after_ledger_insert(Err(StoreErrorKind::RecordNotInserted)) == RestoreNext::CheckExists,
        spec_after_ledger_insert(Err(StoreErrorKind::UniqueConstraintViolation)) == RestoreNext::CheckExists,
        e != StoreErrorKind::PrimaryKeyNotSet && e != StoreErrorKind::AttrNotSet ==> spec_after_parse(Err(e))
            == RestoreNext::Failed(e) && spec_after_insert(Err(e)) == RestoreNext::Failed(e),
        e != StoreErrorKind::PrimaryKeyNotSet && e != StoreErrorKind::AttrNotSet && e != StoreErrorKind::RecordNotFound
            && e != StoreErrorKind::RecordNotUpdated ==> spec_after_update(Err(e)) == RestoreNext::Failed(e),
        e != StoreErrorKind::PrimaryKeyNotSet && e != StoreErrorKind::AttrNotSet && e != StoreErrorKind::RecordNotFound
            ==> spec_after_delete(Err(e)) == RestoreNext::Failed(e),
        e != StoreErrorKind::PrimaryKeyNotSet && e != StoreErrorKind::AttrNotSet && e
            != StoreErrorKind::RecordNotInserted && e != StoreErrorKind::UniqueConstraintViolation
            ==> spec_after_ledger_insert(Err(e)) == RestoreNext::Failed(e),
{
}

} // verus!
