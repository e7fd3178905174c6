use voletu_core::enums::{DispatchMethod, DispatchPurpose, DocumentStatus, FlowEntityType, FlowType, PipelineStatus};
use voletu_core::flow::{
    acceptance_flow_rows, blending_flow_rows, cargo_flow_rows, checked_rail_receipt_flow_rows,
    checked_truck_dispatch_flow_rows, checked_truck_receipt_flow_rows, dispatch_flow_rows, ownership_transfer_flow_rows,
    pending_waybill_rows, rail_receipt_flow_rows, reconciliation_flow_rows, text_less, truck_dispatch_flow_rows,
    truck_receipt_flow_rows, CargoFlowSources, FirstLine, LinkedReceipt, LoadedAcceptanceFlow, LoadedBlendingFlow,
    LoadedDispatchFlow, LoadedLineFlow, LoadedPendingWaybill, LoadedReceiptFlow, PartyLine,
};
use voletu_core::quantity::Quantity;

fn q(n: i64) -> Quantity {
    Quantity::units(n)
}

fn line(product: &str, amount: i64) -> Option<FirstLine> {
    Some(FirstLine { product_name: Some(product.to_string()), amount: q(amount) })
}

fn dispatch(id: u128, date: &str, method: DispatchMethod, purpose: DispatchPurpose, status: DocumentStatus) -> LoadedDispatchFlow {
    LoadedDispatchFlow {
        id,
        document_number: format!("D-{}", id),
        date: date.to_string(),
        dispatch_method: method,
        dispatch_purpose: purpose,
        contractor_id: 7,
        contractor_name: None,
        status,
        first_item: line("Diesel", 40),
        item_amounts: vec![q(40), q(2)],
    }
}

fn waybill(id: u128, sender: u128, acceptances: Vec<LinkedReceipt>) -> LoadedReceiptFlow {
    LoadedReceiptFlow {
        id,
        document_number: format!("W-{}", id),
        date: "2024-05-01".to_string(),
        sender_id: sender,
        sender_name: None,
        first_line: line("Oil", 100),
        acceptances,
    }
}

fn linked(id: u128, status: DocumentStatus, amounts: Vec<Quantity>) -> LinkedReceipt {
    LinkedReceipt { id, document_number: format!("A-{}", id), status, item_amounts: amounts }
}

#[test]
fn truck_dispatch_flow_lists_truck_dispatches_with_their_sums() {
    let mut empty = dispatch(2, "2024-05-02", DispatchMethod::Truck, DispatchPurpose::External, DocumentStatus::Executed);
    empty.item_amounts = vec![];
    empty.first_item = None;
    let docs = vec![
        dispatch(1, "2024-05-01", DispatchMethod::Truck, DispatchPurpose::External, DocumentStatus::Draft),
        empty,
        dispatch(3, "2024-05-03", DispatchMethod::Bunkering, DispatchPurpose::External, DocumentStatus::Draft),
    ];
    let rows = truck_dispatch_flow_rows(&docs, None, None);
    assert_eq!(rows.len(), 2);
    assert_eq!(rows[0].dispatched_quantity, Some(q(42)));
    assert_eq!(rows[0].contractor_name, "");
    assert_eq!(rows[0].product_name, Some("Diesel".to_string()));
    assert_eq!(rows[0].pipeline_status, PipelineStatus::Draft);
    assert_eq!(rows[1].dispatched_quantity, None);
    assert_eq!(rows[1].product_name, None);
    assert!(truck_dispatch_flow_rows(&docs, Some(PipelineStatus::Pending), None).is_empty());
    assert_eq!(truck_dispatch_flow_rows(&docs, Some(PipelineStatus::Executed), None)[0].dispatch_id, 2);
    assert!(truck_dispatch_flow_rows(&docs, None, Some(8)).is_empty());
    let max = Quantity { mantissa: 0xFFFF_FFFF_FFFF_FFFF_FFFF_FFFF, scale: 0 };
    let mut big = docs[0].clone();
    big.item_amounts = vec![max, max];
    assert!(checked_truck_dispatch_flow_rows(&vec![big.clone()], None, None).is_none());
    assert_eq!(checked_truck_dispatch_flow_rows(&vec![big], Some(PipelineStatus::Executed), None).unwrap().len(), 0);
}

#[test]
fn truck_receipt_flow_takes_the_last_acceptance_and_writes_status_text() {
    let pending = waybill(1, 5, vec![]);
    let accepted = waybill(
        2,
        5,
        vec![linked(10, DocumentStatus::Draft, vec![q(1)]), linked(11, DocumentStatus::Executed, vec![q(60), q(35)])],
    );
    let no_items = waybill(3, 6, vec![linked(12, DocumentStatus::Draft, vec![])]);
    let all = vec![pending, accepted, no_items];
    let rows = truck_receipt_flow_rows(&all, None, None);
    assert_eq!(rows.len(), 3);
    assert_eq!(rows[0].pipeline_status, "pending");
    assert_eq!(rows[0].contractor_name, "Unknown");
    assert_eq!(rows[0].action_id, None);
    assert_eq!(rows[0].expected_quantity, Some(q(100)));
    assert_eq!(rows[1].pipeline_status, "executed");
    assert_eq!(rows[1].action_id, Some(11));
    assert_eq!(rows[1].action_document_number, Some("A-11".to_string()));
    assert_eq!(rows[1].actual_quantity, Some(q(95)));
    assert_eq!(rows[2].pipeline_status, "draft");
    assert_eq!(rows[2].actual_quantity, None);
    let drafts = truck_receipt_flow_rows(&all, Some("draft"), None);
    assert_eq!(drafts.len(), 1);
    assert_eq!(drafts[0].basis_id, 3);
    assert!(truck_receipt_flow_rows(&all, Some("Draft"), None).is_empty());
    assert_eq!(truck_receipt_flow_rows(&all, None, Some(5)).len(), 2);
    assert_eq!(checked_truck_receipt_flow_rows(&all, None, None).unwrap().len(), 3);
}

#[test]
fn rail_receipt_flow_takes_the_first_acceptance() {
    let mut wb = waybill(
        1,
        5,
        vec![linked(10, DocumentStatus::Draft, vec![q(1), q(2)]), linked(11, DocumentStatus::Executed, vec![q(60)])],
    );
    wb.sender_name = Some("Rail Co".to_string());
    let bare = waybill(2, 5, vec![]);
    let all = vec![wb, bare];
    let rows = rail_receipt_flow_rows(&all, None, None);
    assert_eq!(rows.len(), 2);
    assert_eq!(rows[0].action_id, Some(10));
    assert_eq!(rows[0].actual_quantity, Some(q(3)));
    assert_eq!(rows[0].pipeline_status, PipelineStatus::Draft);
    assert_eq!(rows[0].contractor_name, "Rail Co");
    assert_eq!(rows[1].contractor_name, "");
    assert_eq!(rows[1].pipeline_status, PipelineStatus::Pending);
    let pending = rail_receipt_flow_rows(&all, Some(PipelineStatus::Pending), None);
    assert_eq!(pending.len(), 1);
    assert_eq!(pending[0].basis_id, 2);
    assert_eq!(checked_rail_receipt_flow_rows(&all, None, None).unwrap().len(), 2);
}

fn acceptance(id: u128, date: &str, truck: bool) -> LoadedAcceptanceFlow {
    LoadedAcceptanceFlow {
        id,
        document_number: format!("A-{}", id),
        date_accepted: date.to_string(),
        status: DocumentStatus::Executed,
        truck_waybill_id: if truck { Some(90) } else { None },
        rail_waybill_id: None,
        transit_dispatch_id: None,
        waybill_sender_id: if truck { Some(5) } else { None },
        sender_name: Some("Sender".to_string()),
        first_item: line("Oil", 12),
    }
}

fn pending_waybill(id: u128, date: &str, has_acceptance: bool) -> LoadedPendingWaybill {
    LoadedPendingWaybill {
        id,
        document_number: format!("W-{}", id),
        date: date.to_string(),
        sender_id: 5,
        sender_name: None,
        has_acceptance,
    }
}

fn line_doc(id: u128, date: &str) -> LoadedLineFlow {
    LoadedLineFlow {
        id,
        document_number: format!("L-{}", id),
        date: date.to_string(),
        status: DocumentStatus::Draft,
        first_line: Some(PartyLine {
            contractor_id: 9,
            contractor_name: Some("Nine".to_string()),
            product_name: Some("Gas".to_string()),
            amount: q(3),
        }),
    }
}

fn sources() -> CargoFlowSources {
    CargoFlowSources {
        dispatches: vec![dispatch(1, "2024-05-03", DispatchMethod::VesselTerminal, DispatchPurpose::External, DocumentStatus::Draft)],
        acceptances: vec![acceptance(2, "2024-05-05", true), acceptance(3, "2024-05-01", false)],
        truck_waybills: vec![pending_waybill(4, "2024-05-03", false), pending_waybill(5, "2024-05-09", true)],
        rail_waybills: vec![pending_waybill(6, "2024-05-02", false)],
        blendings: vec![LoadedBlendingFlow {
            id: 7,
            document_number: "B-7".to_string(),
            date: "2024-05-04".to_string(),
            contractor_id: 9,
            contractor_name: None,
            target_product_name: Some("Mix".to_string()),
            status: DocumentStatus::Executed,
        }],
        physical_transfers: vec![line_doc(8, "2024-05-06")],
        ownership_transfers: vec![line_doc(0x1234abcd_0000_0000_0000_000000000000, "2024-05-07")],
        reconciliations: vec![line_doc(10, "2024-05-08")],
    }
}

#[test]
fn cargo_flow_collectors_build_each_kind_of_row() {
    let src = sources();
    let d = dispatch_flow_rows(&src.dispatches, None, None, None);
    assert_eq!(d[0].operation, "Direct Dispatch");
    assert_eq!(d[0].flow_route, "/outgoing/direct");
    assert_eq!(d[0].contractor_name, Some("Unknown".to_string()));
    assert_eq!(d[0].flow_type, FlowType::Outgoing);
    assert!(dispatch_flow_rows(&src.dispatches, Some("Truck Dispatch"), None, None).is_empty());
    let a = acceptance_flow_rows(&src.acceptances, None, None, None);
    assert_eq!(a[0].operation, "Truck Receipt");
    assert_eq!(a[0].contractor_id, Some(5));
    assert_eq!(a[0].contractor_name, Some("Sender".to_string()));
    assert_eq!(a[1].operation, "External Acceptance");
    assert_eq!(a[1].contractor_id, None);
    assert_eq!(a[1].contractor_name, None);
    assert_eq!(a[1].flow_route, "/incoming/external");
    assert_eq!(acceptance_flow_rows(&src.acceptances, None, None, Some(5)).len(), 1);
    assert!(acceptance_flow_rows(&src.acceptances, None, Some(PipelineStatus::Pending), None).is_empty());
    let p = pending_waybill_rows(&src.truck_waybills, &src.rail_waybills, None, None);
    assert_eq!(p.len(), 2);
    assert_eq!((p[0].id, p[0].entity_type), (4, FlowEntityType::TruckWaybill));
    assert_eq!((p[1].id, p[1].entity_type), (6, FlowEntityType::RailWaybill));
    assert_eq!(p[0].contractor_name, Some("Unknown".to_string()));
    assert_eq!(pending_waybill_rows(&src.truck_waybills, &src.rail_waybills, Some("Rail Receipt"), None).len(), 1);
    let b = blending_flow_rows(&src.blendings, None, None);
    assert_eq!((b[0].quantity, b[0].product_name.clone()), (None, Some("Mix".to_string())));
    let o = ownership_transfer_flow_rows(&src.ownership_transfers, None, None);
    assert_eq!(o[0].document_number, "1234abcd-0000-0000-0000-000000000000");
    assert_eq!(o[0].quantity, Some(q(3)));
    assert_eq!(o[0].contractor_id, Some(9));
    let r = reconciliation_flow_rows(&src.reconciliations, None, Some(9));
    assert_eq!((r[0].quantity, r[0].operation.as_str()), (None, "Inventory Reconciliation"));
    assert!(reconciliation_flow_rows(&src.reconciliations, None, Some(1)).is_empty());
}

#[test]
fn cargo_flow_sorts_newest_first_and_pages() {
    let src = sources();
    let rows = cargo_flow_rows(&src, None, None, None, None, 1, 100);
    let ids: Vec<u128> = rows.iter().map(|r| r.id).collect();
    // 2024-05-08 reconciliation, -07 ownership, -06 physical, -05 acceptance,
    // -04 blending, -03 dispatch then pending truck waybill (stable), -02 rail,
    // -01 external acceptance.
    assert_eq!(ids, vec![10, 0x1234abcd_0000_0000_0000_000000000000, 8, 2, 7, 1, 4, 6, 3]);
    let page2 = cargo_flow_rows(&src, None, None, None, None, 2, 4);
    assert_eq!(page2.iter().map(|r| r.id).collect::<Vec<u128>>(), vec![7, 1, 4, 6]);
    assert_eq!(cargo_flow_rows(&src, None, None, None, None, 3, 4).len(), 1);
    assert!(cargo_flow_rows(&src, None, None, None, None, 4, 4).is_empty());
    let internal = cargo_flow_rows(&src, Some(FlowType::Internal), None, None, None, 1, 10);
    assert_eq!(internal.len(), 4);
    let blending_only = cargo_flow_rows(&src, None, Some("Blending"), None, None, 1, 10);
    assert_eq!(blending_only.iter().map(|r| r.id).collect::<Vec<u128>>(), vec![7]);
    let pending = cargo_flow_rows(&src, None, None, Some(PipelineStatus::Pending), None, 1, 10);
    assert_eq!(pending.iter().map(|r| r.id).collect::<Vec<u128>>(), vec![4, 6]);
    assert!(cargo_flow_rows(&src, Some(FlowType::Outgoing), None, Some(PipelineStatus::Pending), None, 1, 10).is_empty());
    assert!(text_less("2024-05-03", "2024-05-03 10:00:00 UTC"));
    assert!(!text_less("b", "abc"));
}
