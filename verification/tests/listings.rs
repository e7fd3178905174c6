use std::collections::HashMap;

use voletu_core::cargo_flow::{
    cargo_flow_page, cargo_flow_flat_row, like_pattern, page_offset, row_count, search_filter, short_uuid, trim_text, CargoFlowLine,
};
use voletu_core::enums::{AdjustmentType, DispatchMethod, DispatchPurpose, DocumentStatus, PipelineStatus};
use voletu_core::flat_rows::{
    acceptance_flat_rows, blending_flat_rows, dispatch_flat_row, dispatch_flat_rows, ownership_transfer_flat_rows,
    physical_transfer_flat_rows, reconciliation_flat_rows, AcceptanceLine, AdjustmentLine, BlendingComponentLine,
    BlendingResultLine, DispatchLine, LoadedAcceptance, LoadedBlending, LoadedDispatch, LoadedOwnershipTransfer,
    LoadedPhysicalTransfer, LoadedReconciliation, OwnershipTransferLine, PhysicalTransferLine,
};
use voletu_core::quantity::Quantity;
use voletu_core::pipelines::{
    receipt_pipeline_rows, total_quantity, truck_dispatch_pipeline_rows, DeclaredLine, DispatchedLine,
    LinkedAcceptance, LoadedTruckDispatch, LoadedWaybill,
};

const DASH: &str = "\u{2014}";

fn q(n: i64) -> Quantity {
    Quantity::units(n)
}

fn loaded_dispatch(lines: Vec<DispatchLine>, contractor: Option<&str>) -> LoadedDispatch {
    LoadedDispatch {
        id: 10,
        document_number: "D-10".to_string(),
        date: "2024-05-01".to_string(),
        status: DocumentStatus::Draft,
        dispatch_method: DispatchMethod::Truck,
        dispatch_purpose: DispatchPurpose::External,
        contractor_name: contractor.map(|s| s.to_string()),
        lines,
    }
}

#[test]
fn dispatch_listing_has_a_row_per_line_or_a_placeholder() {
    let with_lines = loaded_dispatch(
        vec![
            DispatchLine { id: 11, product_name: Some("Diesel".to_string()), storage_name: None, dispatched_amount: q(40) },
            DispatchLine { id: 12, product_name: None, storage_name: Some("Tank 2".to_string()), dispatched_amount: q(5) },
        ],
        Some("Acme"),
    );
    let empty = loaded_dispatch(vec![], None);
    let rows = dispatch_flat_rows(&vec![with_lines, empty]);
    assert_eq!(rows.len(), 3);
    assert_eq!(rows[0].item_id, 11);
    assert_eq!(rows[0].product_id_name, "Diesel");
    assert_eq!(rows[0].storage_id_name, "");
    assert_eq!(rows[0].contractor_id_name, "Acme");
    assert_eq!(rows[1].item_id, 12);
    assert_eq!(rows[1].product_id_name, "");
    assert_eq!(rows[1].storage_id_name, "Tank 2");
    assert_eq!(rows[1].dispatched_amount, q(5));
    assert_eq!(rows[2].item_id, 10);
    assert_eq!(rows[2].document_id, 10);
    assert_eq!(rows[2].product_id_name, DASH);
    assert_eq!(rows[2].storage_id_name, DASH);
    assert_eq!(rows[2].contractor_id_name, DASH);
    assert_eq!(rows[2].dispatched_amount, q(0));
    let single = dispatch_flat_row(&loaded_dispatch(vec![], Some("Acme")), None);
    assert_eq!(single.document_number, "D-10");
    assert_eq!(single.date, "2024-05-01");
}

#[test]
fn acceptance_listing_rows() {
    let doc = LoadedAcceptance {
        id: 20,
        document_number: "A-20".to_string(),
        date_accepted: "2024-05-02".to_string(),
        status: DocumentStatus::Executed,
        source_entity: Some("Port".to_string()),
        contractor_name: Some("Beta".to_string()),
        lines: vec![AcceptanceLine { id: 21, product_name: Some("Gasoline".to_string()), storage_name: Some("T1".to_string()), accepted_amount: q(7) }],
    };
    let rows = acceptance_flat_rows(&vec![doc]);
    assert_eq!(rows.len(), 1);
    assert_eq!(rows[0].source_entity, Some("Port".to_string()));
    assert_eq!(rows[0].accepted_amount, q(7));
    assert_eq!(rows[0].status, DocumentStatus::Executed);
    assert_eq!(rows[0].storage_id_name, "T1");
}

#[test]
fn reconciliation_placeholder_is_a_zero_surplus() {
    let empty = LoadedReconciliation {
        id: 30,
        document_number: "R-30".to_string(),
        date: "2024-05-03".to_string(),
        status: DocumentStatus::Draft,
        contractor_name: None,
        warehouse_name: Some("North".to_string()),
        lines: vec![],
    };
    let mut full = empty.clone();
    full.id = 31;
    full.lines = vec![AdjustmentLine {
        id: 32,
        product_name: Some("Oil".to_string()),
        storage_name: None,
        adjustment_type: AdjustmentType::Loss,
        amount: q(3),
        reason: Some("leak".to_string()),
    }];
    let rows = reconciliation_flat_rows(&vec![empty, full]);
    assert_eq!(rows.len(), 2);
    assert_eq!(rows[0].adjustment_type, AdjustmentType::Surplus);
    assert_eq!(rows[0].amount, q(0));
    assert_eq!(rows[0].reason, None);
    assert_eq!(rows[0].warehouse_id_name, "North");
    assert_eq!(rows[0].contractor_id_name, DASH);
    assert_eq!(rows[1].adjustment_type, AdjustmentType::Loss);
    assert_eq!(rows[1].reason, Some("leak".to_string()));
}

#[test]
fn physical_transfer_rows_name_destination_storage() {
    let doc = LoadedPhysicalTransfer {
        id: 40,
        document_number: "P-40".to_string(),
        date: "2024-05-04".to_string(),
        status: DocumentStatus::Draft,
        contractor_name: Some("Gamma".to_string()),
        lines: vec![
            PhysicalTransferLine { id: 41, product_name: Some("Oil".to_string()), from_storage_name: Some("A".to_string()), to_storage_id: 7, amount: q(9) },
            PhysicalTransferLine { id: 42, product_name: None, from_storage_name: None, to_storage_id: 8, amount: q(1) },
        ],
    };
    let mut names = HashMap::new();
    names.insert(7u128, "B".to_string());
    let rows = physical_transfer_flat_rows(&vec![doc], &names);
    assert_eq!(rows[0].to_storage_id_name, "B");
    assert_eq!(rows[0].from_storage_id_name, "A");
    assert_eq!(rows[1].to_storage_id_name, "");
    assert_eq!(rows[1].contractor_id_name, "Gamma");
}

#[test]
fn ownership_rows_name_both_contractors() {
    let doc = LoadedOwnershipTransfer {
        id: 50,
        date: "2024-05-05".to_string(),
        status: DocumentStatus::Draft,
        lines: vec![OwnershipTransferLine {
            id: 51,
            product_name: Some("Oil".to_string()),
            storage_name: Some("T9".to_string()),
            from_contractor_id: 1,
            to_contractor_id: 2,
            amount: q(12),
        }],
    };
    let empty = LoadedOwnershipTransfer { id: 52, date: "2024-05-06".to_string(), status: DocumentStatus::Draft, lines: vec![] };
    let mut names = HashMap::new();
    names.insert(1u128, "Seller".to_string());
    let rows = ownership_transfer_flat_rows(&vec![doc, empty], &names);
    assert_eq!(rows.len(), 2);
    assert_eq!(rows[0].from_contractor_id_name, "Seller");
    assert_eq!(rows[0].to_contractor_id_name, DASH);
    assert_eq!(rows[0].amount, q(12));
    assert_eq!(rows[1].from_contractor_id_name, DASH);
    assert_eq!(rows[1].item_id, 52);
}

#[test]
fn blending_rows_list_components_then_results() {
    let doc = LoadedBlending {
        id: 60,
        document_number: "B-60".to_string(),
        date: "2024-05-07".to_string(),
        status: DocumentStatus::Draft,
        contractor_name: Some("Delta".to_string()),
        target_product_name: Some("Blend".to_string()),
        components: vec![BlendingComponentLine { id: 61, product_name: Some("Base".to_string()), storage_name: Some("S1".to_string()), amount_used: q(30) }],
        results: vec![BlendingResultLine { id: 62, storage_name: None, produced_amount: q(30) }],
    };
    let empty = LoadedBlending {
        id: 63,
        document_number: "B-63".to_string(),
        date: "2024-05-08".to_string(),
        status: DocumentStatus::Draft,
        contractor_name: None,
        target_product_name: None,
        components: vec![],
        results: vec![],
    };
    let rows = blending_flat_rows(&vec![doc, empty]);
    assert_eq!(rows.len(), 3);
    assert_eq!(rows[0].item_type, "component");
    assert_eq!(rows[0].product_id_name, "Base");
    assert_eq!(rows[1].item_type, "result");
    assert_eq!(rows[1].product_id_name, "Blend");
    assert_eq!(rows[1].storage_id_name, "");
    assert_eq!(rows[2].item_type, DASH);
    assert_eq!(rows[2].target_product_id_name, DASH);
    assert_eq!(rows[2].item_id, 63);
}

fn waybill(id: u128, acceptances: Vec<LinkedAcceptance>, lines: Vec<DeclaredLine>) -> LoadedWaybill {
    LoadedWaybill {
        id,
        document_number: format!("W-{}", id),
        date: "2024-06-01".to_string(),
        sender_id: 5,
        sender_name: None,
        lines,
        acceptances,
    }
}

#[test]
fn receipt_pipeline_statuses_and_quantities() {
    let pending = waybill(1, vec![], vec![DeclaredLine { product_name: Some("Oil".to_string()), declared_quantity: q(100) }]);
    let draft = waybill(
        2,
        vec![LinkedAcceptance { id: 9, document_number: "A-9".to_string(), status: DocumentStatus::Draft, accepted_amounts: vec![] }],
        vec![],
    );
    let executed = waybill(
        3,
        vec![LinkedAcceptance { id: 8, document_number: "A-8".to_string(), status: DocumentStatus::Executed, accepted_amounts: vec![q(60), q(35)] }],
        vec![],
    );
    let all = vec![pending, draft, executed];
    let rows = receipt_pipeline_rows(&all, None);
    assert_eq!(rows.len(), 3);
    assert_eq!(rows[0].pipeline_status, PipelineStatus::Pending);
    assert_eq!(rows[0].expected_quantity, Some(q(100)));
    assert_eq!(rows[0].product_name, Some("Oil".to_string()));
    assert_eq!(rows[0].action_id, None);
    assert_eq!(rows[0].contractor_name, "");
    assert_eq!(rows[1].pipeline_status, PipelineStatus::Draft);
    assert_eq!(rows[1].actual_quantity, None);
    assert_eq!(rows[1].action_document_number, Some("A-9".to_string()));
    assert_eq!(rows[2].actual_quantity, Some(q(95)));
    let executed_only = receipt_pipeline_rows(&all, Some(PipelineStatus::Executed));
    assert_eq!(executed_only.len(), 1);
    assert_eq!(executed_only[0].id, 3);
}

#[test]
fn truck_dispatch_pipeline_sums_positive_totals() {
    let doc = LoadedTruckDispatch {
        id: 70,
        document_number: "T-70".to_string(),
        date: "2024-06-02".to_string(),
        contractor_id: 4,
        contractor_name: Some("Eps".to_string()),
        status: DocumentStatus::Executed,
        lines: vec![
            DispatchedLine { product_name: Some("Oil".to_string()), dispatched_amount: q(20) },
            DispatchedLine { product_name: Some("Gas".to_string()), dispatched_amount: q(22) },
        ],
    };
    let mut empty = doc.clone();
    empty.id = 71;
    empty.status = DocumentStatus::Draft;
    empty.lines = vec![];
    let rows = truck_dispatch_pipeline_rows(&vec![doc.clone(), empty.clone()], None);
    assert_eq!(rows.len(), 2);
    assert_eq!(rows[0].dispatched_quantity, Some(q(42)));
    assert_eq!(rows[0].product_name, Some("Oil".to_string()));
    assert_eq!(rows[0].pipeline_status, PipelineStatus::Executed);
    assert_eq!(rows[1].dispatched_quantity, None);
    assert!(truck_dispatch_pipeline_rows(&vec![doc.clone(), empty], Some(PipelineStatus::Pending)).is_empty());
    let dec = |mantissa: i128, scale: u32| Quantity { mantissa, scale };
    assert_eq!(total_quantity(&vec![q(i64::MAX), q(i64::MAX)]), Some(dec(2 * (i64::MAX as i128), 0)));
    // 1.5 + 0.25 is 1.75; the sum of two largest decimals overflows.
    assert_eq!(total_quantity(&vec![dec(15, 1), dec(25, 2)]), Some(dec(175, 2)));
    let max = dec(0xFFFF_FFFF_FFFF_FFFF_FFFF_FFFF, 0);
    assert_eq!(total_quantity(&vec![max, max]), None);
}

fn flow_line() -> CargoFlowLine {
    CargoFlowLine {
        id: 1,
        document_id: 0xab,
        document_number: None,
        date_nanos: 1_700_000_000_000_000_000,
        flow_type: "Internal".to_string(),
        operation: "Ownership Transfer".to_string(),
        contractor_name: None,
        ownership_from_contractor_name: Some("Alpha".to_string()),
        ownership_to_contractor_name: None,
        status: DocumentStatus::Executed,
        flow_route: "/internal/ownership-transfer".to_string(),
        product_name: "Oil".to_string(),
        storage_name: "".to_string(),
        quantity: q(15),
        item_type: None,
    }
}

#[test]
fn cargo_flow_row_of_an_ownership_transfer() {
    let row = cargo_flow_flat_row(&flow_line());
    assert_eq!(row.contractor_name, "Alpha \u{2192} ");
    assert_eq!(row.document_number, "OT-00000000");
    assert_eq!(row.status, "Executed");
    assert_eq!(row.date, "2023-11-14T22:13:20+00:00");
    assert_eq!(row.quantity, "15");
    assert_eq!(short_uuid(0xabcdef12_3456_0000_0000_000000000000), "abcdef12");
}

#[test]
fn cargo_flow_row_keeps_own_number_and_contractor() {
    let mut line = flow_line();
    line.document_number = Some("DOC-1".to_string());
    line.contractor_name = Some("Zeta".to_string());
    line.status = DocumentStatus::Draft;
    let row = cargo_flow_flat_row(&line);
    assert_eq!(row.document_number, "DOC-1");
    assert_eq!(row.contractor_name, "Zeta");
    assert_eq!(row.status, "Draft");
}

#[test]
fn cargo_flow_row_writes_the_quantity_as_decimal_text() {
    let mut line = flow_line();
    line.document_id = 0x1234abcd_0000_0000_0000_000000000000;
    line.contractor_name = None;
    line.ownership_from_contractor_name = Some("A".to_string());
    line.ownership_to_contractor_name = Some("B".to_string());
    line.status = DocumentStatus::Draft;
    line.quantity = q(-5);
    let row = cargo_flow_flat_row(&line);
    assert_eq!(row.document_number, "OT-1234abcd");
    assert_eq!(row.contractor_name, "A \u{2192} B");
    assert_eq!(row.status, "Draft");
    assert_eq!(row.quantity, "-5");
    assert_eq!(row.item_type, None);
    let cases: [(i128, u32, &str); 5] =
        [(150, 2, "1.50"), (5, 3, "0.005"), (0, 0, "0"), (0, 2, "0.00"), (-12345678, 7, "-1.2345678")];
    for (mantissa, scale, text) in cases {
        line.quantity = Quantity { mantissa, scale };
        assert_eq!(cargo_flow_flat_row(&line).quantity, text);
    }
}

#[test]
fn cargo_flow_search_filter_and_paging() {
    assert_eq!(trim_text("  Oil \t"), "Oil");
    assert_eq!(search_filter(Some("  ")), None);
    assert_eq!(search_filter(None), None);
    assert_eq!(search_filter(Some(" Diesel ")), Some("Diesel".to_string()));
    assert_eq!(like_pattern("DiEsel"), "%diesel%");
    assert_eq!(page_offset(1, 50), 0);
    assert_eq!(page_offset(3, 20), 40);
    assert_eq!(row_count(-4), 0);
    assert_eq!(row_count(12), 12);
}

#[test]
fn cargo_flow_page_shows_each_line() {
    let mut second = flow_line();
    second.id = 2;
    second.contractor_name = Some("Omega".to_string());
    let page = cargo_flow_page(&vec![flow_line(), second], 7);
    assert_eq!(page.total, 7);
    assert_eq!(page.items.len(), 2);
    assert_eq!(page.items[0].id, 1);
    assert_eq!(page.items[1].contractor_name, "Omega");
    assert_eq!(cargo_flow_page(&vec![], -1).total, 0);
}
