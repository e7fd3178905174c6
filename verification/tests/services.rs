use voletu_core::await_cycle::{
    central_api_url, status_timeout_secs, status_url, worker_state_name, fence_poll, fence_satisfied, has_pending_work, into_response, is_peripheral_node, progress_poll,
    replication_targets, since_satisfied, start_await, upsert_watermark, watermark_for, AwaitCycleOutcome,
    AwaitCycleStart, PendingFence, PendingReplicationTargets, SyncWatermark, WorkerSnapshot,
};
use voletu_core::enums::{DispatchMethod, DispatchPurpose, DocumentStatus, SyncDirection, WorkerState};
use voletu_core::jwt::{claims_for, JwtConfig, JwtService};
use voletu_core::models::{AcceptanceItem, DispatchDocument};
use voletu_core::quantity::Quantity;
use voletu_core::query::{
    AuditLogQuerySpec, OutboundAuditLogsQuerySpec, PullAuditLogsQuerySpec, SyncStatusQuerySpec,
    AcceptanceDocumentQuerySpec, AcceptanceFlatQuerySpec, BlendingDocumentQuerySpec, BlendingFlatQuerySpec,
    CargoFlowQuerySpec, DispatchDocumentQuerySpec, DispatchFlatQuerySpec, OwnershipTransferFlatQuerySpec,
    OwnershipTransferQuerySpec, PhysicalTransferFlatQuerySpec, PhysicalTransferQuerySpec, ReconciliationFlatQuerySpec,
    ReconciliationQuerySpec,
};
use voletu_core::updates::{
    apply_acceptance_item_update, apply_dispatch_document_update, UpdateAcceptanceItemRequest, UpdateDispatchRequest,
};

fn snapshot(cycles: u64, ticks: u64, state: WorkerState, last_sync_at: Option<i128>) -> WorkerSnapshot {
    WorkerSnapshot { cycles, ticks, state, last_sync_at }
}

fn watermark(node: u128, direction: SyncDirection, last: u128, disc: &str) -> SyncWatermark {
    SyncWatermark { target_node_id: node, direction, last_audit_log_id: last, base_discriminant: disc.to_string() }
}

#[test]
fn sleeping_worker_ends_a_wait_uncompleted() {
    let s = snapshot(1, 1, WorkerState::Sleeping, None);
    match start_await(s, None, None) {
        AwaitCycleStart::Finished(o) => {
            assert!(matches!(o, AwaitCycleOutcome::Sleeping(_)));
            assert!(!into_response(o).completed);
        },
        _ => panic!("a sleeping worker ends the wait"),
    }
}

#[test]
fn recent_sync_without_fences_is_satisfied_at_once() {
    let s = snapshot(1, 1, WorkerState::OnlineIdle, Some(500));
    assert!(since_satisfied(s, Some(400)));
    assert!(!since_satisfied(s, Some(600)));
    assert!(!since_satisfied(s, None));
    let no_fences = PendingReplicationTargets { pull: None, push: None };
    assert!(!has_pending_work(no_fences));
    match start_await(s, Some(400), Some(no_fences)) {
        AwaitCycleStart::Finished(o) => {
            let r = into_response(o);
            assert!(r.completed);
            assert_eq!(r.last_sync_at, Some(500));
            assert_eq!(r.worker_state, WorkerState::OnlineIdle);
        },
        _ => panic!("satisfied at once"),
    }
    let fenced = PendingReplicationTargets { pull: Some(PendingFence { target_node_id: 1, target_audit_log_id: 9 }), push: None };
    assert!(matches!(start_await(s, Some(400), Some(fenced)), AwaitCycleStart::WaitForFences(_)));
    assert!(matches!(start_await(s, Some(600), None), AwaitCycleStart::WaitForProgress));
}

#[test]
fn polls_end_waits() {
    let s = snapshot(2, 5, WorkerState::Syncing, None);
    assert!(matches!(fence_poll(s, true, true, false), Some(AwaitCycleOutcome::SatisfiedAfterFence(_))));
    assert!(matches!(fence_poll(s, true, false, true), Some(AwaitCycleOutcome::TimedOut(_))));
    assert!(fence_poll(s, false, true, false).is_none());
    let initial = snapshot(1, 5, WorkerState::Syncing, None);
    assert!(matches!(progress_poll(initial, s, None, false), Some(AwaitCycleOutcome::SatisfiedAfterCycle(_))));
    let idle = snapshot(1, 7, WorkerState::OnlineIdle, None);
    assert!(matches!(progress_poll(initial, idle, None, false), Some(AwaitCycleOutcome::SatisfiedAfterIdleProbe(_))));
    let busy = snapshot(1, 6, WorkerState::OnlineIdle, None);
    assert!(progress_poll(initial, busy, None, false).is_none());
    let timed_out = progress_poll(initial, busy, None, true).unwrap();
    assert!(!into_response(timed_out).completed);
    let synced = snapshot(1, 5, WorkerState::Syncing, Some(10));
    assert!(matches!(progress_poll(initial, synced, Some(10), false), Some(AwaitCycleOutcome::SatisfiedAfterSince(_))));
}

#[test]
fn watermarks_are_read_and_fences_checked() {
    let ws = vec![
        watermark(1, SyncDirection::Push, 40, ""),
        watermark(1, SyncDirection::Pull, 30, "d1"),
        watermark(1, SyncDirection::Pull, 99, "d9"),
    ];
    assert_eq!(watermark_for(&ws, 1, SyncDirection::Pull), (30, "d1".to_string()));
    assert_eq!(watermark_for(&ws, 2, SyncDirection::Pull), (0, String::new()));
    let t = replication_targets(1, 35, 40, &ws, &"d1".to_string());
    assert_eq!(t.push, None);
    assert_eq!(t.pull, Some(PendingFence { target_node_id: 1, target_audit_log_id: 35 }));
    let drifted = replication_targets(1, 20, 41, &ws, &"other".to_string());
    assert_eq!(drifted.pull, Some(PendingFence { target_node_id: 1, target_audit_log_id: 20 }));
    assert_eq!(drifted.push, Some(PendingFence { target_node_id: 1, target_audit_log_id: 41 }));
    let fence = PendingFence { target_node_id: 1, target_audit_log_id: 30 };
    assert!(fence_satisfied(fence, SyncDirection::Pull, &ws, &"d1".to_string()));
    assert!(!fence_satisfied(fence, SyncDirection::Pull, &ws, &"d2".to_string()));
    assert!(fence_satisfied(fence, SyncDirection::Push, &ws, &"d2".to_string()));
}

#[test]
fn watermark_read_after_upsert() {
    let mut ws = vec![watermark(1, SyncDirection::Push, 40, ""), watermark(2, SyncDirection::Pull, 7, "x")];
    upsert_watermark(&mut ws, 2, SyncDirection::Pull, 70, "y".to_string());
    assert_eq!(ws.len(), 2);
    assert_eq!(watermark_for(&ws, 2, SyncDirection::Pull), (70, "y".to_string()));
    upsert_watermark(&mut ws, 3, SyncDirection::Push, 5, "z".to_string());
    assert_eq!(ws.len(), 3);
    assert_eq!(watermark_for(&ws, 3, SyncDirection::Push), (5, "z".to_string()));
    assert_eq!(watermark_for(&ws, 1, SyncDirection::Push), (40, String::new()));
}

#[test]
fn peripheral_node_type_ignores_case() {
    assert!(is_peripheral_node("peripheral"));
    assert!(is_peripheral_node("Peripheral"));
    assert!(!is_peripheral_node("central"));
    assert!(!is_peripheral_node("peripherals"));
}

#[test]
fn jwt_claims_carry_user_and_lifetime() {
    let svc = JwtService::new(&JwtConfig { secret: "s3cret".to_string(), expiration_seconds: 3600 });
    assert_eq!(svc.secret(), "s3cret");
    let claims = svc.issue_claims(42, "alice", "admin", 1_700_000_000).unwrap();
    assert_eq!(claims.sub, "alice");
    assert_eq!(claims.uid, 42);
    assert_eq!(claims.role, "admin");
    assert_eq!(claims.iat, 1_700_000_000);
    assert_eq!(claims.exp, 1_700_003_600);
    assert!(claims_for(1, "bob", "user", 10, None).is_none());
    let c = claims_for(1, "bob", "user", 10, Some(70)).unwrap();
    assert_eq!((c.sub.as_str(), c.uid, c.role.as_str(), c.iat, c.exp), ("bob", 1, "user", 10, 70));
    let far = JwtService::new(&JwtConfig { secret: "k".to_string(), expiration_seconds: 9_000_000_000_000_000 });
    assert!(far.issue_claims(1, "bob", "user", 0).is_none());
}

#[test]
fn jwt_expiry_stays_within_the_dates_chrono_represents() {
    let max: i64 = 8_210_266_876_799;
    let min: i64 = -8_334_601_228_800;
    let hour = JwtService::new(&JwtConfig { secret: "k".to_string(), expiration_seconds: 3600 });
    let last = hour.issue_claims(7, "eve", "user", max - 3600).unwrap();
    assert_eq!(last.exp, max as usize);
    assert!(hour.issue_claims(7, "eve", "user", max - 3599).is_none());
    assert!(hour.issue_claims(7, "eve", "user", min - 1).is_none());
    assert!(hour.issue_claims(7, "eve", "user", min).is_some());
    let back = JwtService::new(&JwtConfig { secret: "k".to_string(), expiration_seconds: -3600 });
    assert!(back.issue_claims(7, "eve", "user", min + 3599).is_none());
    assert!(back.issue_claims(7, "eve", "user", min + 3600).is_some());
}

#[test]
fn updates_replace_only_given_fields() {
    let mut item = AcceptanceItem { id: 1, acceptance_doc_id: 2, product_id: 3, contractor_id: 4, storage_id: 5, accepted_amount: Quantity::units(6) };
    let req = UpdateAcceptanceItemRequest { product_id: None, contractor_id: Some(40), storage_id: None, accepted_amount: Some(Quantity::units(60)) };
    apply_acceptance_item_update(&mut item, &req);
    assert_eq!((item.id, item.acceptance_doc_id, item.product_id, item.contractor_id, item.storage_id, item.accepted_amount), (1, 2, 3, 40, 5, Quantity::units(60)));

    let mut doc = DispatchDocument {
        id: 9,
        document_number: "D-9".to_string(),
        date: "2024-01-01".to_string(),
        dispatch_purpose: DispatchPurpose::External,
        dispatch_method: DispatchMethod::Truck,
        contractor_id: 1,
        destination_base_id: None,
        receiver_entity: None,
        start_cargo_ops: None,
        end_cargo_ops: None,
        bunker_type: None,
        exporter_id: None,
        port_id: None,
        status: DocumentStatus::Draft,
        deleted_at: None,
    };
    let req = UpdateDispatchRequest {
        document_number: Some("D-9b".to_string()),
        date: None,
        dispatch_purpose: None,
        dispatch_method: Some(DispatchMethod::Bunkering),
        contractor_id: None,
        destination_base_id: Some(77),
        receiver_entity: None,
        start_cargo_ops: None,
        end_cargo_ops: None,
        bunker_type: Some("MGO".to_string()),
        exporter_id: None,
        port_id: None,
    };
    apply_dispatch_document_update(&mut doc, &req);
    assert_eq!(doc.document_number, "D-9b");
    assert_eq!(doc.date, "2024-01-01");
    assert_eq!(doc.dispatch_method, DispatchMethod::Bunkering);
    assert_eq!(doc.destination_base_id, Some(77));
    assert_eq!(doc.bunker_type, Some("MGO".to_string()));
    assert_eq!(doc.contractor_id, 1);
    assert_eq!(doc.status, DocumentStatus::Draft);
}

#[test]
fn list_specs_page_without_filters() {
    let a = AcceptanceDocumentQuerySpec::list(Some(2), Some(25));
    assert_eq!((a.page, a.per_page), (Some(2), Some(25)));
    assert!(a.document_number.is_none() && a.status.is_none() && a.truck_waybill_id.is_none());
    let d = DispatchDocumentQuerySpec::list(None, Some(10));
    assert_eq!((d.page, d.per_page), (None, Some(10)));
    assert!(d.contractor_id.is_none() && d.dispatch_method.is_none());
    assert_eq!(AcceptanceFlatQuerySpec::list(Some(1), None).page, Some(1));
    assert!(DispatchFlatQuerySpec::list(Some(1), None).dispatch_purpose.is_none());
    assert_eq!(BlendingDocumentQuerySpec::list(Some(3), Some(3)).per_page, Some(3));
    assert!(BlendingFlatQuerySpec::list(None, None).status.is_none());
    assert!(ReconciliationQuerySpec::list(Some(1), Some(1)).warehouse_id.is_none());
    assert_eq!(ReconciliationFlatQuerySpec::list(Some(4), None).page, Some(4));
    assert!(PhysicalTransferQuerySpec::list(None, Some(5)).document_number.is_none());
    assert_eq!(PhysicalTransferFlatQuerySpec::list(None, Some(5)).per_page, Some(5));
    assert!(OwnershipTransferQuerySpec::list(Some(1), None).status.is_none());
    assert_eq!(OwnershipTransferFlatQuerySpec::list(Some(6), Some(7)).per_page, Some(7));
    let c = CargoFlowQuerySpec::list(Some(8), Some(9));
    assert_eq!((c.page, c.per_page), (Some(8), Some(9)));
}

#[test]
fn central_node_status_address() {
    assert_eq!(central_api_url(Some("  http://c:8080/ ")), Some("http://c:8080/".to_string()));
    assert_eq!(central_api_url(Some("   ")), None);
    assert_eq!(central_api_url(None), None);
    assert_eq!(
        status_url("http://c:8080//", &[1]),
        "http://c:8080/sync/status?baseIds=00000000-0000-0000-0000-000000000001"
    );
    assert_eq!(status_url("http://c", &[]), "http://c/sync/status?baseIds=");
    assert_eq!(status_timeout_secs(0), 1);
    assert_eq!(status_timeout_secs(3), 3);
    assert_eq!(status_timeout_secs(30), 5);
}

#[test]
fn sync_query_specs_and_worker_names() {
    let pull = PullAuditLogsQuerySpec::new(7, vec![1, 2], Some(50));
    assert_eq!((pull.last_audit_log_id, pull.base_ids.clone(), pull.limit), (7, vec![1, 2], Some(50)));
    let out = OutboundAuditLogsQuerySpec::new(9, None);
    assert_eq!((out.after_audit_log_id, out.limit), (9, None));
    assert_eq!(SyncStatusQuerySpec::new(vec![3]).base_ids, vec![3]);
    assert!(SyncStatusQuerySpec::default().base_ids.is_empty());
    let a = AuditLogQuerySpec::default();
    assert!(a.table_name.is_none() && a.record_id.is_none() && a.limit.is_none());
    assert_eq!(worker_state_name(WorkerState::OnlineIdle), "OnlineIdle");
    assert_eq!(worker_state_name(WorkerState::Sleeping), "Sleeping");
}
