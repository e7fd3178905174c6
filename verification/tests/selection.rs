use voletu_core::enums::{DispatchMethod, DispatchPurpose, DocumentStatus, NullableFilter, PipelineStatus};
use voletu_core::models::{AcceptanceDocument, DispatchDocument, InventoryReconciliation, TruckWaybill};
use voletu_core::query::{
    AcceptanceDocumentQuerySpec, DispatchDocumentQuerySpec, DispatchFlatQuerySpec, ReconciliationQuerySpec,
    TruckDispatchPipelineQuerySpec, TruckReceiptPipelineQuerySpec, TruckWaybillQuerySpec,
};
use voletu_core::selection::text_contains;

fn acceptance(number: &str, truck: Option<u128>, deleted: bool) -> AcceptanceDocument {
    AcceptanceDocument {
        id: 1,
        document_number: number.to_string(),
        date_accepted: "2024-02-02".to_string(),
        arrival_type: "Truck".to_string(),
        source_entity: None,
        contractor_id: 3,
        truck_waybill_id: truck,
        rail_waybill_id: None,
        transit_dispatch_id: None,
        status: DocumentStatus::Draft,
        deleted_at: if deleted { Some("2024-02-03".to_string()) } else { None },
    }
}

fn dispatch(method: DispatchMethod, status: DocumentStatus, contractor_id: u128) -> DispatchDocument {
    DispatchDocument {
        id: 2,
        document_number: "OUT-2024-17".to_string(),
        date: "2024-02-02".to_string(),
        dispatch_purpose: DispatchPurpose::Internal,
        dispatch_method: method,
        contractor_id,
        destination_base_id: None,
        receiver_entity: None,
        start_cargo_ops: None,
        end_cargo_ops: None,
        bunker_type: None,
        exporter_id: None,
        port_id: None,
        status,
        deleted_at: None,
    }
}

#[test]
fn substring_search() {
    assert!(text_contains("ACC-2024-001", "2024"));
    assert!(text_contains("ACC", ""));
    assert!(text_contains("ACC", "ACC"));
    assert!(!text_contains("ACC", "ACCC"));
    assert!(!text_contains("ACC-1", "acc"));
}

#[test]
fn acceptance_listing_filters() {
    let mut spec = AcceptanceDocumentQuerySpec::list(None, None);
    assert!(spec.selects(&acceptance("ACC-7", None, false)));
    assert!(!spec.selects(&acceptance("ACC-7", None, true)));
    spec.document_number = Some("C-7".to_string());
    assert!(spec.selects(&acceptance("ACC-7", None, false)));
    assert!(!spec.selects(&acceptance("ACC-8", None, false)));
    spec.truck_waybill_id = Some(NullableFilter::IsNotNull);
    assert!(!spec.selects(&acceptance("ACC-7", None, false)));
    assert!(spec.selects(&acceptance("ACC-7", Some(5), false)));
    spec.truck_waybill_id = Some(NullableFilter::IsNull);
    assert!(!spec.selects(&acceptance("ACC-7", Some(5), false)));
    spec.status = Some(DocumentStatus::Executed);
    assert!(!spec.selects(&acceptance("ACC-7", None, false)));
}

#[test]
fn dispatch_listing_filters() {
    let mut spec = DispatchDocumentQuerySpec::list(None, None);
    spec.contractor_id = Some(4);
    spec.dispatch_method = Some(DispatchMethod::Truck);
    assert!(spec.selects(&dispatch(DispatchMethod::Truck, DocumentStatus::Draft, 4)));
    assert!(!spec.selects(&dispatch(DispatchMethod::Bunkering, DocumentStatus::Draft, 4)));
    assert!(!spec.selects(&dispatch(DispatchMethod::Truck, DocumentStatus::Draft, 5)));
    let mut flat = DispatchFlatQuerySpec::list(None, None);
    flat.dispatch_purpose = Some(DispatchPurpose::External);
    assert!(!flat.selects(&dispatch(DispatchMethod::Truck, DocumentStatus::Draft, 4)));
}

#[test]
fn truck_dispatch_pipeline_selection() {
    let mut spec = TruckDispatchPipelineQuerySpec::list(None, None);
    assert!(spec.selects(&dispatch(DispatchMethod::Truck, DocumentStatus::Executed, 1)));
    assert!(!spec.selects(&dispatch(DispatchMethod::VesselTerminal, DocumentStatus::Executed, 1)));
    spec.pipeline_status = Some(PipelineStatus::Executed);
    assert!(spec.selects(&dispatch(DispatchMethod::Truck, DocumentStatus::Executed, 1)));
    assert!(!spec.selects(&dispatch(DispatchMethod::Truck, DocumentStatus::Draft, 1)));
    spec.pipeline_status = Some(PipelineStatus::Pending);
    assert!(!spec.selects(&dispatch(DispatchMethod::Truck, DocumentStatus::Draft, 1)));
    assert!(!spec.selects(&dispatch(DispatchMethod::Truck, DocumentStatus::Executed, 1)));
}

#[test]
fn waybill_and_reconciliation_selection() {
    let wb = TruckWaybill { id: 1, document_number: "TW-99".to_string(), date: "2024-01-01".to_string(), sender_id: 8, deleted_at: None };
    let mut spec = TruckWaybillQuerySpec::list(None, None);
    spec.sender_id = Some(8);
    assert!(spec.selects(&wb));
    spec.document_number = Some("98".to_string());
    assert!(!spec.selects(&wb));
    let mut pipeline = TruckReceiptPipelineQuerySpec::list(None, None);
    pipeline.contractor_id = Some(9);
    assert!(!pipeline.selects(&wb));
    let rec = InventoryReconciliation {
        id: 1,
        document_number: "R-1".to_string(),
        date: "2024-01-01".to_string(),
        contractor_id: 1,
        warehouse_id: 6,
        status: DocumentStatus::Draft,
        deleted_at: None,
    };
    let mut rspec = ReconciliationQuerySpec::list(None, None);
    rspec.warehouse_id = Some(6);
    assert!(rspec.selects(&rec));
    rspec.warehouse_id = Some(7);
    assert!(!rspec.selects(&rec));
}
