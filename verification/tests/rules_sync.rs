use std::collections::{HashMap, HashSet};

use voletu_core::base_ids::normalize_target_base_ids;
use voletu_core::enums::{AuditAction, AuditTable, DocumentStatus, PipelineStatus};
use voletu_core::errors::{ChildCollection, DocumentError, ParentKind};
use voletu_core::ledger::{LedgerBalance, LedgerEntry};
use voletu_core::enums::{LedgerEntrySourceEvent, LedgerEntrySourceKind};
use voletu_core::models::DispatchItem;
use voletu_core::restore::{
    after_delete, after_exists_check, after_insert, after_ledger_insert, after_ledger_parse, after_parse,
    after_update, restore_plan, RestoreNext, RestorePlan, Snapshot, StoreErrorKind,
};
use voletu_core::rules::{
    effective_dispatch_line, ensure_amount_available, ensure_comp_differs_from_target, ensure_parent_active,
    ensure_unique_ids, ensure_unique_rail_ids, first_repeated_id, ManifestRowIds,
};
use voletu_core::sync_helpers::{
    bounded_limit, check_discriminant, compute_base_discriminant, excluded_sync_tables, highest_evaluated_id,
    join_uuid_csv, parse_json_field, sorted_unique_ids, stored_log_values, targets_base,
};
use voletu_core::sync_merge::{
    latest_heads, plan_incoming_logs, unique_log_ids, unique_record_ids, AuditHead, IncomingAuditBatchState,
    IncomingLog, LogDecision, StoredLogRow,
};

use voletu_core::quantity::Quantity;

const ID1: &str = "00000000-0000-0000-0000-000000000001";
const ID2: &str = "00000000-0000-0000-0000-000000000002";
const ID255: &str = "00000000-0000-0000-0000-0000000000ff";

fn q(n: i64) -> Quantity {
    Quantity::units(n)
}

fn balance(amount: i64) -> LedgerBalance {
    LedgerBalance {
        latest_row: LedgerEntry {
            id: 1,
            storage_id: 1,
            product_id: 1,
            contractor_id: 1,
            quantity_delta: q(0),
            source_kind: LedgerEntrySourceKind::AcceptanceDocument,
            source_id: 1,
            source_event: LedgerEntrySourceEvent::Execution,
            reverses_entry_id: None,
            created_at: 0,
        },
        current_amount: q(amount),
    }
}

#[test]
fn component_may_not_be_target_product() {
    assert_eq!(ensure_comp_differs_from_target(5, 5), Err(DocumentError::ComponentIsTargetProduct));
    assert_eq!(ensure_comp_differs_from_target(5, 6), Ok(()));
}

#[test]
fn dispatched_amount_must_be_available() {
    assert_eq!(ensure_amount_available(q(10), Some(balance(10))), Ok(()));
    assert_eq!(ensure_amount_available(q(11), Some(balance(10))), Err(DocumentError::ExceedsAvailableBalance));
    assert_eq!(ensure_amount_available(q(1), None), Err(DocumentError::ExceedsAvailableBalance));
    assert_eq!(ensure_amount_available(q(0), None), Ok(()));
}

#[test]
fn effective_dispatch_line_prefers_requested_values() {
    let existing = DispatchItem { id: 1, dispatch_doc_id: 2, product_id: 3, storage_id: 4, dispatched_amount: q(50) };
    assert_eq!(effective_dispatch_line(&existing, None, None, None), (4, 3, q(50)));
    assert_eq!(effective_dispatch_line(&existing, Some(9), None, Some(q(7))), (9, 3, q(7)));
}

#[test]
fn deleted_parent_refuses_changes() {
    assert_eq!(ensure_parent_active(ParentKind::TruckWaybill, 8, &None), Ok(()));
    assert_eq!(
        ensure_parent_active(ParentKind::WagonManifest, 8, &Some("2024-01-01T00:00:00Z".to_string())),
        Err(DocumentError::ParentDeleted { parent: ParentKind::WagonManifest, parent_id: 8 })
    );
}

#[test]
fn repeated_request_ids_are_refused() {
    assert_eq!(first_repeated_id(&vec![Some(1), None, Some(2), None]), None);
    assert_eq!(first_repeated_id(&vec![Some(1), Some(2), Some(2), Some(1)]), Some(2));
    assert_eq!(
        ensure_unique_ids(ChildCollection::Items, &vec![Some(3), None, Some(3)]),
        Err(DocumentError::DuplicateId { collection: ChildCollection::Items, id: 3 })
    );
    assert_eq!(ensure_unique_ids(ChildCollection::Components, &vec![None, None]), Ok(()));
}

#[test]
fn rail_update_ids_are_checked_manifest_by_manifest() {
    let ok = vec![
        ManifestRowIds { id: Some(1), measurement_ids: vec![Some(10), None], weight_ids: vec![Some(10)] },
        ManifestRowIds { id: None, measurement_ids: vec![Some(10)], weight_ids: vec![] },
    ];
    assert_eq!(ensure_unique_rail_ids(&ok), Ok(()));
    let dup_manifest = vec![
        ManifestRowIds { id: Some(1), measurement_ids: vec![], weight_ids: vec![] },
        ManifestRowIds { id: Some(1), measurement_ids: vec![], weight_ids: vec![] },
    ];
    assert_eq!(
        ensure_unique_rail_ids(&dup_manifest),
        Err(DocumentError::DuplicateId { collection: ChildCollection::Manifests, id: 1 })
    );
    let dup_weight = vec![ManifestRowIds { id: Some(1), measurement_ids: vec![Some(4)], weight_ids: vec![Some(6), Some(6)] }];
    assert_eq!(
        ensure_unique_rail_ids(&dup_weight),
        Err(DocumentError::DuplicateId { collection: ChildCollection::Weights, id: 6 })
    );
    let dup_measure = vec![ManifestRowIds { id: None, measurement_ids: vec![Some(4), Some(4)], weight_ids: vec![Some(6), Some(6)] }];
    assert_eq!(
        ensure_unique_rail_ids(&dup_measure),
        Err(DocumentError::DuplicateId { collection: ChildCollection::Measurements, id: 4 })
    );
}

#[test]
fn uuid_csv_joins_hyphenated_texts() {
    assert_eq!(join_uuid_csv(&[]), "");
    assert_eq!(join_uuid_csv(&[1]), ID1);
    assert_eq!(join_uuid_csv(&[2, 255]), format!("{},{}", ID2, ID255));
}

#[test]
fn base_discriminant_depends_on_the_set_only() {
    assert_eq!(sorted_unique_ids(&[3, 1, 3, 2]), vec![1, 2, 3]);
    let a = compute_base_discriminant(&[255, 1, 1]);
    let b = compute_base_discriminant(&[1, 255]);
    assert_eq!(a, b);
    assert_eq!(a, format!("{},{}", ID1, ID255));
}

#[test]
fn discriminant_drift_is_reported() {
    let expected = format!("{},{}", ID1, ID2);
    assert_eq!(check_discriminant(&[2, 1], &expected).unwrap(), expected);
    let drift = check_discriminant(&[1], &expected).unwrap_err();
    assert_eq!(drift.current, ID1);
    assert_eq!(drift.expected, expected);
}

#[test]
fn limits_and_cursors() {
    assert_eq!(bounded_limit(None, 1000), 1000);
    assert_eq!(bounded_limit(Some(50), 1000), 50);
    assert_eq!(bounded_limit(Some(5000), 1000), 1000);
    assert_eq!(highest_evaluated_id(&[], 7), 7);
    assert_eq!(highest_evaluated_id(&[9, 4], 7), 4);
    assert_eq!(excluded_sync_tables(), vec![AuditTable::AuditLogs, AuditTable::Local, AuditTable::Roles]);
}

#[test]
fn target_base_ids_are_normalized() {
    assert_eq!(normalize_target_base_ids(" b, a ,,a"), ",a,b,");
    assert_eq!(normalize_target_base_ids(""), "");
    assert_eq!(normalize_target_base_ids(" , ,"), "");
    assert_eq!(normalize_target_base_ids(",a,b,"), ",a,b,");
    assert_eq!(normalize_target_base_ids("c,a"), normalize_target_base_ids("a,c,a"));
}

fn log(id: u128, record_id: u128, timestamp: i128, weight: i32) -> IncomingLog {
    IncomingLog { id, record_id, timestamp, user_role_weight: weight }
}

#[test]
fn audit_heads_decide_merges() {
    let head = AuditHead { id: 1, timestamp: 100, user_role_weight: 5 };
    assert!(head.rejects(&log(2, 9, 100, 3)));
    assert!(!head.rejects(&log(2, 9, 101, 3)));
    assert!(!head.rejects(&log(2, 9, 90, 5)));
    assert!(head.should_replace(&log(2, 9, 101, 0)));
    assert!(head.should_replace(&log(2, 9, 100, 6)));
    assert!(head.should_replace(&log(2, 9, 100, 5)));
    assert!(!head.should_replace(&log(0, 9, 100, 5)));
    let h = AuditHead::from_incoming(&log(4, 9, 7, 2));
    assert_eq!((h.id, h.timestamp, h.user_role_weight), (4, 7, 2));
}

#[test]
fn incoming_batch_applies_each_id_once_and_skips_stored_logs() {
    let mut existing = HashSet::new();
    existing.insert(1u128);
    let mut heads = HashMap::new();
    heads.insert(50u128, AuditHead { id: 1, timestamp: 100, user_role_weight: 9 });
    let mut state = IncomingAuditBatchState { existing_ids: existing, latest_by_record: heads };
    let logs = vec![
        log(1, 50, 200, 0),
        log(2, 50, 90, 1),
        log(3, 60, 10, 0),
        log(3, 60, 10, 0),
        log(4, 50, 300, 0),
    ];
    let plan = plan_incoming_logs(&mut state, &logs);
    assert_eq!(
        plan.decisions,
        vec![
            LogDecision::AlreadyPresent,
            LogDecision::Rejected,
            LogDecision::Applied,
            LogDecision::AlreadyPresent,
            LogDecision::Applied,
        ]
    );
    assert_eq!(plan.accepted, 2);
    assert_eq!(plan.rejected, 1);
    assert!(state.contains_id(3) && state.contains_id(4));
    assert_eq!(state.latest_by_record.get(&50).unwrap().id, 4);
    // Sending the same batch again applies nothing already merged; a log that was
    // rejected may now be applied, since the head that beat it was replaced by a
    // lighter role's log.
    let again = plan_incoming_logs(&mut state, &logs);
    assert_eq!(
        again.decisions,
        vec![
            LogDecision::AlreadyPresent,
            LogDecision::Applied,
            LogDecision::AlreadyPresent,
            LogDecision::AlreadyPresent,
            LogDecision::AlreadyPresent,
        ]
    );
    assert_eq!(again.accepted, 1);
    assert_eq!(state.latest_by_record.get(&50).unwrap().id, 4);
}

#[test]
fn stored_heads_are_the_first_row_per_record() {
    let rows = vec![
        StoredLogRow { id: 7, record_id: 1, timestamp: 30, user_role_weight: 1 },
        StoredLogRow { id: 6, record_id: 1, timestamp: 20, user_role_weight: 1 },
        StoredLogRow { id: 5, record_id: 2, timestamp: 10, user_role_weight: 0 },
    ];
    let heads = latest_heads(&rows);
    assert_eq!(heads.len(), 2);
    assert_eq!(heads.get(&1).unwrap().id, 7);
    assert_eq!(heads.get(&2).unwrap().timestamp, 10);
}

#[test]
fn restore_plans() {
    assert_eq!(restore_plan(AuditTable::AuditLogs, AuditAction::Insert, true, true), RestorePlan::Nothing);
    assert_eq!(restore_plan(AuditTable::Roles, AuditAction::HardDelete, true, true), RestorePlan::Nothing);
    assert_eq!(restore_plan(AuditTable::Products, AuditAction::Update, false, true), RestorePlan::Upsert);
    assert_eq!(restore_plan(AuditTable::Products, AuditAction::Insert, false, false), RestorePlan::Nothing);
    assert_eq!(restore_plan(AuditTable::Products, AuditAction::HardDelete, true, true), RestorePlan::Delete(Snapshot::Old));
    assert_eq!(restore_plan(AuditTable::Products, AuditAction::HardDelete, false, true), RestorePlan::Delete(Snapshot::New));
    assert_eq!(
        restore_plan(AuditTable::InventoryLedgerEntries, AuditAction::Insert, false, true),
        RestorePlan::InsertLedgerEntry
    );
    assert_eq!(restore_plan(AuditTable::InventoryLedgerEntries, AuditAction::Update, true, true), RestorePlan::Nothing);
}

#[test]
fn restore_steps() {
    assert_eq!(after_parse(Ok(())), RestoreNext::Proceed);
    assert_eq!(after_parse(Err(StoreErrorKind::AttrNotSet)), RestoreNext::Done);
    assert_eq!(after_parse(Err(StoreErrorKind::Other)), RestoreNext::Failed(StoreErrorKind::Other));
    assert_eq!(after_update(Err(StoreErrorKind::RecordNotFound)), RestoreNext::InsertInstead);
    assert_eq!(after_update(Err(StoreErrorKind::RecordNotUpdated)), RestoreNext::InsertInstead);
    assert_eq!(after_update(Err(StoreErrorKind::PrimaryKeyNotSet)), RestoreNext::Done);
    assert_eq!(after_update(Ok(())), RestoreNext::Done);
    assert_eq!(after_insert(Err(StoreErrorKind::UniqueConstraintViolation)), RestoreNext::Failed(StoreErrorKind::UniqueConstraintViolation));
    assert_eq!(after_delete(Err(StoreErrorKind::RecordNotFound)), RestoreNext::Done);
    assert_eq!(after_delete(Err(StoreErrorKind::Other)), RestoreNext::Failed(StoreErrorKind::Other));
    assert_eq!(after_ledger_parse(Ok(()), false), RestoreNext::Done);
    assert_eq!(after_ledger_parse(Ok(()), true), RestoreNext::Proceed);
    assert_eq!(after_ledger_insert(Err(StoreErrorKind::RecordNotInserted)), RestoreNext::CheckExists);
    assert_eq!(after_ledger_insert(Err(StoreErrorKind::AttrNotSet)), RestoreNext::Done);
    assert_eq!(after_exists_check(true, StoreErrorKind::RecordNotInserted), RestoreNext::Done);
    assert_eq!(
        after_exists_check(false, StoreErrorKind::RecordNotInserted),
        RestoreNext::Failed(StoreErrorKind::RecordNotInserted)
    );
}

#[test]
fn pipeline_status_of_documents() {
    assert_eq!(PipelineStatus::from_doc_status(None), PipelineStatus::Pending);
    assert_eq!(PipelineStatus::from_doc_status(Some(&DocumentStatus::Draft)), PipelineStatus::Draft);
    assert_eq!(PipelineStatus::from_doc_status(Some(&DocumentStatus::Executed)), PipelineStatus::Executed);
}

#[test]
fn scope_condition_targets_named_bases() {
    assert!(targets_base("a", "a"));
    assert!(targets_base("a,b", "a"));
    assert!(targets_base("b,a", "a"));
    assert!(targets_base(",b,a,c,", "a"));
    assert!(!targets_base(",ab,", "a"));
    assert!(!targets_base("", "a"));
    let stored = normalize_target_base_ids(" b , a");
    assert!(targets_base(&stored, "a"));
    assert!(targets_base(&stored, "b"));
    assert!(!targets_base(&stored, "c"));
    assert_eq!(normalize_target_base_ids(&stored), stored);
}

#[test]
fn snapshot_fields_parse_as_json() {
    assert!(parse_json_field(None, "new_values").unwrap().is_none());
    let v = parse_json_field(Some("{\"id\":1}"), "new_values").unwrap().unwrap();
    assert_eq!(v["id"], 1);
    let e = parse_json_field(Some("{"), "old_values").unwrap_err();
    assert_eq!(e.field, "old_values");
}

#[test]
fn batch_ids_are_deduplicated_and_sorted() {
    use_heads();
    let logs = vec![log(5, 30, 1, 0), log(2, 10, 1, 0), log(5, 30, 2, 0), log(9, 10, 3, 0)];
    assert_eq!(unique_log_ids(&logs), vec![2, 5, 9]);
    assert_eq!(unique_record_ids(&logs), vec![10, 30]);
}

fn use_heads() {
    let h = AuditHead::from_row(&StoredLogRow { id: 3, record_id: 4, timestamp: 5, user_role_weight: 6 });
    assert_eq!((h.id, h.timestamp, h.user_role_weight), (3, 5, 6));
}

#[test]
fn stored_log_values_parse_snapshots_and_normalise_targets() {
    let stored = stored_log_values(Some("{\"a\":1}"), None, " b , a,b ").unwrap();
    let expected: serde_json::Value = serde_json::from_str("{\"a\":1}").unwrap();
    assert_eq!(stored.old_values, Some(expected));
    assert_eq!(stored.new_values, None);
    assert_eq!(stored.target_base_ids, ",a,b,");
}

#[test]
fn stored_log_values_name_the_first_invalid_snapshot() {
    let both = stored_log_values(Some("{"), Some("["), "").unwrap_err();
    assert_eq!(both.field, "oldValuesJson");
    let new_only = stored_log_values(Some("{}"), Some("not json"), "").unwrap_err();
    assert_eq!(new_only.field, "newValuesJson");
}
