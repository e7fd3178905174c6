use voletu_core::enums::{
    AdjustmentType, DispatchMethod, DispatchPurpose, DocumentStatus, LedgerEntrySourceEvent, LedgerEntrySourceKind,
};
use voletu_core::errors::DocumentError;
use voletu_core::execution::{
    acceptance_execution_changes, acceptance_reversion_changes, adjustment_delta, blending_execution_deltas,
    checked_blending_execution_deltas,
    dispatch_execution_changes, dispatch_reversion_changes, ownership_transfer_changes,
    physical_transfer_execution_deltas, reconciliation_changes, BalanceChange,
};
use voletu_core::ledger::{
    add_row_to_balance, balance_by_dimensions, checked_balance_by_dimensions, checked_derive_balance,
    checked_list_balances, derive_balance, list_balances, reversal_deltas, LedgerBalance,
    LedgerEntry,
};
use voletu_core::quantity::Quantity;
use voletu_core::models::{
    AcceptanceDocument, AcceptanceItem, BlendingComponent, BlendingDocument, BlendingResult, DispatchDocument,
    DispatchItem, InventoryAdjustment, InventoryReconciliation, OwnershipTransferItem, PhysicalStorageTransfer,
    PhysicalTransferItem,
};

fn q(n: i64) -> Quantity {
    Quantity::units(n)
}

fn acceptance_doc(contractor_id: u128) -> AcceptanceDocument {
    AcceptanceDocument {
        id: 100,
        document_number: "ACC-1".to_string(),
        date_accepted: "2024-03-01".to_string(),
        arrival_type: "Truck".to_string(),
        source_entity: None,
        contractor_id,
        truck_waybill_id: None,
        rail_waybill_id: None,
        transit_dispatch_id: None,
        status: DocumentStatus::Draft,
        deleted_at: None,
    }
}

fn acceptance_item(storage_id: u128, product_id: u128, amount: i64) -> AcceptanceItem {
    AcceptanceItem { id: 1, acceptance_doc_id: 100, product_id, contractor_id: 7, storage_id, accepted_amount: q(amount) }
}

fn dispatch_doc(contractor_id: u128) -> DispatchDocument {
    DispatchDocument {
        id: 200,
        document_number: "DSP-1".to_string(),
        date: "2024-03-02".to_string(),
        dispatch_purpose: DispatchPurpose::External,
        dispatch_method: DispatchMethod::Truck,
        contractor_id,
        destination_base_id: None,
        receiver_entity: None,
        start_cargo_ops: None,
        end_cargo_ops: None,
        bunker_type: None,
        exporter_id: None,
        port_id: None,
        status: DocumentStatus::Draft,
        deleted_at: None,
    }
}

fn net(changes: &[BalanceChange], storage_id: u128, product_id: u128, contractor_id: u128) -> i128 {
    changes
        .iter()
        .filter(|c| c.storage_id == storage_id && c.product_id == product_id && c.contractor_id == contractor_id)
        .map(|c| c.delta.mantissa)
        .sum()
}

fn entry(id: u128, dims: (u128, u128, u128), delta: i64, created_at: i128) -> LedgerEntry {
    LedgerEntry {
        id,
        storage_id: dims.0,
        product_id: dims.1,
        contractor_id: dims.2,
        quantity_delta: q(delta),
        source_kind: LedgerEntrySourceKind::AcceptanceDocument,
        source_id: 100,
        source_event: LedgerEntrySourceEvent::Execution,
        reverses_entry_id: None,
        created_at,
    }
}

#[test]
fn acceptance_execution_adds_each_amount_for_the_contractor() {
    let doc = acceptance_doc(7);
    let items = vec![acceptance_item(1, 2, 500), acceptance_item(3, 2, 250)];
    let changes = acceptance_execution_changes(&doc, &items).unwrap();
    assert_eq!(changes.len(), 2);
    assert_eq!((changes[0].storage_id, changes[0].product_id, changes[0].contractor_id, changes[0].delta), (1, 2, 7, q(500)));
    assert_eq!((changes[1].storage_id, changes[1].product_id, changes[1].contractor_id, changes[1].delta), (3, 2, 7, q(250)));
}

#[test]
fn acceptance_without_items_is_refused() {
    let doc = acceptance_doc(7);
    assert_eq!(acceptance_execution_changes(&doc, &vec![]).unwrap_err(), DocumentError::AcceptanceWithoutItems);
}

#[test]
fn acceptance_reversion_cancels_execution() {
    let doc = acceptance_doc(7);
    let items = vec![acceptance_item(1, 2, 500), acceptance_item(1, 2, 30)];
    let mut all = acceptance_execution_changes(&doc, &items).unwrap();
    all.extend(acceptance_reversion_changes(&doc, &items));
    assert_eq!(net(&all, 1, 2, 7), 0);
}

#[test]
fn dispatch_execution_takes_amounts_out_and_reversion_puts_them_back() {
    let doc = dispatch_doc(9);
    let items = vec![DispatchItem { id: 1, dispatch_doc_id: 200, product_id: 4, storage_id: 5, dispatched_amount: q(80) }];
    let exec = dispatch_execution_changes(&doc, &items);
    assert_eq!(exec[0].delta, q(-80));
    assert_eq!(exec[0].contractor_id, 9);
    let rev = dispatch_reversion_changes(&doc, &items);
    assert_eq!(rev[0].delta, q(80));
    let mut all = exec.clone();
    all.extend(rev);
    assert_eq!(net(&all, 5, 4, 9), 0);
}

#[test]
fn adjustment_delta_signs() {
    assert_eq!(adjustment_delta(&AdjustmentType::Surplus, &q(40)), q(40));
    assert_eq!(adjustment_delta(&AdjustmentType::Loss, &q(40)), q(-40));
}

#[test]
fn reconciliation_reversion_cancels_execution() {
    let doc = InventoryReconciliation {
        id: 300,
        document_number: "REC-1".to_string(),
        date: "2024-03-03".to_string(),
        contractor_id: 11,
        warehouse_id: 12,
        status: DocumentStatus::Draft,
        deleted_at: None,
    };
    let adjustments = vec![
        InventoryAdjustment {
            id: 1,
            reconciliation_id: 300,
            storage_id: 1,
            product_id: 2,
            contractor_id: 3,
            adjustment_type: AdjustmentType::Loss,
            amount: q(15),
            reason: Some("evaporation".to_string()),
        },
        InventoryAdjustment {
            id: 2,
            reconciliation_id: 300,
            storage_id: 1,
            product_id: 2,
            contractor_id: 3,
            adjustment_type: AdjustmentType::Surplus,
            amount: q(5),
            reason: None,
        },
    ];
    let exec = reconciliation_changes(&doc, &adjustments, false);
    assert_eq!(exec[0].delta, q(-15));
    assert_eq!(exec[1].delta, q(5));
    assert_eq!(exec[0].contractor_id, 11);
    let mut all = exec.clone();
    all.extend(reconciliation_changes(&doc, &adjustments, true));
    assert_eq!(net(&all, 1, 2, 11), 0);
}

#[test]
fn ownership_transfer_conserves_storage_stock() {
    let items = vec![OwnershipTransferItem {
        id: 1,
        ownership_transfer_id: 400,
        storage_id: 1,
        product_id: 2,
        from_contractor_id: 3,
        to_contractor_id: 4,
        amount: q(70),
    }];
    let exec = ownership_transfer_changes(&items, false);
    assert_eq!(exec.len(), 2);
    assert_eq!((exec[0].contractor_id, exec[0].delta), (3, q(-70)));
    assert_eq!((exec[1].contractor_id, exec[1].delta), (4, q(70)));
    let total: i128 = exec.iter().map(|c| c.delta.mantissa).sum();
    assert_eq!(total, 0);
    let mut all = exec.clone();
    all.extend(ownership_transfer_changes(&items, true));
    assert_eq!(net(&all, 1, 2, 3), 0);
    assert_eq!(net(&all, 1, 2, 4), 0);
}

fn blending_doc() -> BlendingDocument {
    BlendingDocument {
        id: 500,
        document_number: "BLD-1".to_string(),
        date: "2024-03-04".to_string(),
        contractor_id: 8,
        target_product_id: 99,
        status: DocumentStatus::Draft,
        deleted_at: None,
    }
}

#[test]
fn blending_conserves_quantity() {
    let components = vec![
        BlendingComponent { id: 1, blending_doc_id: 500, storage_id: 1, source_product_id: 10, amount_used: q(60) },
        BlendingComponent { id: 2, blending_doc_id: 500, storage_id: 2, source_product_id: 11, amount_used: q(40) },
    ];
    let results = vec![BlendingResult { id: 3, blending_doc_id: 500, storage_id: 3, produced_amount: q(100) }];
    let deltas = blending_execution_deltas(&blending_doc(), &components, &results).unwrap();
    assert_eq!(deltas.len(), 3);
    assert_eq!((deltas[0].storage_id, deltas[0].product_id, deltas[0].quantity_delta), (1, 10, q(-60)));
    assert_eq!((deltas[1].storage_id, deltas[1].product_id, deltas[1].quantity_delta), (2, 11, q(-40)));
    assert_eq!((deltas[2].storage_id, deltas[2].product_id, deltas[2].quantity_delta), (3, 99, q(100)));
    assert!(deltas.iter().all(|d| d.contractor_id == 8 && d.source_id == 500));
    assert!(deltas.iter().all(|d| d.source_kind == LedgerEntrySourceKind::BlendingDocument));
    let total: i128 = deltas.iter().map(|d| d.quantity_delta.mantissa).sum();
    assert_eq!(total, 0);
}

#[test]
fn blending_refusals() {
    let doc = blending_doc();
    let comp = vec![BlendingComponent { id: 1, blending_doc_id: 500, storage_id: 1, source_product_id: 10, amount_used: q(60) }];
    let res = vec![BlendingResult { id: 3, blending_doc_id: 500, storage_id: 3, produced_amount: q(50) }];
    assert_eq!(blending_execution_deltas(&doc, &vec![], &res).unwrap_err(), DocumentError::BlendingWithoutComponents);
    assert_eq!(blending_execution_deltas(&doc, &comp, &vec![]).unwrap_err(), DocumentError::BlendingWithoutResults);
    assert_eq!(blending_execution_deltas(&doc, &comp, &res).unwrap_err(), DocumentError::BlendingTotalsMismatch);
}

#[test]
fn physical_transfer_conserves_ownership() {
    let doc = PhysicalStorageTransfer {
        id: 600,
        document_number: "PHY-1".to_string(),
        date: "2024-03-05".to_string(),
        contractor_id: 21,
        start_cargo_ops: "2024-03-05T08:00".to_string(),
        end_cargo_ops: "2024-03-05T10:00".to_string(),
        status: DocumentStatus::Draft,
        deleted_at: None,
    };
    let items = vec![PhysicalTransferItem { id: 1, physical_transfer_id: 600, product_id: 2, from_storage_id: 5, to_storage_id: 6, amount: q(33) }];
    let deltas = physical_transfer_execution_deltas(&doc, &items);
    assert_eq!(deltas.len(), 2);
    assert_eq!((deltas[0].storage_id, deltas[0].quantity_delta), (5, q(-33)));
    assert_eq!((deltas[1].storage_id, deltas[1].quantity_delta), (6, q(33)));
    assert!(deltas.iter().all(|d| d.contractor_id == 21 && d.product_id == 2));
}

#[test]
fn balance_is_sum_and_latest_row() {
    let rows = vec![entry(1, (1, 2, 3), 100, 10), entry(2, (1, 2, 3), -30, 30), entry(3, (1, 2, 3), 5, 20)];
    let b = derive_balance(&rows).unwrap();
    assert_eq!(b.current_amount, q(75));
    assert_eq!(b.latest_row.id, 2);
    assert!(derive_balance(&vec![]).is_none());
}

#[test]
fn add_row_to_balance_keeps_latest() {
    let mut b = LedgerBalance { latest_row: entry(1, (1, 2, 3), 10, 50), current_amount: q(10) };
    add_row_to_balance(&mut b, entry(2, (1, 2, 3), 4, 40));
    assert_eq!(b.current_amount, q(14));
    assert_eq!(b.latest_row.id, 1);
    add_row_to_balance(&mut b, entry(3, (1, 2, 3), -1, 60));
    assert_eq!(b.current_amount, q(13));
    assert_eq!(b.latest_row.id, 3);
}

#[test]
fn balance_by_dimensions_selects_one_dimension() {
    let rows = vec![entry(1, (1, 2, 3), 100, 10), entry(2, (9, 2, 3), 7, 30), entry(3, (1, 2, 3), 5, 20)];
    let b = balance_by_dimensions(&rows, 1, 2, 3).unwrap();
    assert_eq!(b.current_amount, q(105));
    assert_eq!(b.latest_row.id, 3);
    assert!(balance_by_dimensions(&rows, 4, 4, 4).is_none());
}

#[test]
fn list_balances_lists_each_dimension_once() {
    let rows = vec![
        entry(1, (1, 2, 3), 100, 10),
        entry(2, (9, 2, 3), 7, 30),
        entry(3, (1, 2, 3), 5, 20),
        entry(4, (9, 2, 3), -2, 5),
    ];
    let balances = list_balances(&rows);
    assert_eq!(balances.len(), 2);
    assert_eq!(balances[0].latest_row.storage_id, 1);
    assert_eq!(balances[0].current_amount, q(105));
    assert_eq!(balances[1].latest_row.storage_id, 9);
    assert_eq!(balances[1].current_amount, q(5));
    assert_eq!(balances[1].latest_row.id, 2);
}

#[test]
fn revert_reverses_unreversed_executions_once() {
    let mut ledger = vec![entry(1, (1, 2, 3), 100, 10), entry(2, (1, 2, 3), 50, 20)];
    let mut other = entry(3, (1, 2, 3), 9, 25);
    other.source_id = 999;
    ledger.push(other);
    let reversals = reversal_deltas(&ledger, LedgerEntrySourceKind::AcceptanceDocument, 100);
    assert_eq!(reversals.len(), 2);
    assert_eq!(reversals[0].quantity_delta, q(-100));
    assert_eq!(reversals[0].reverses_entry_id, Some(1));
    assert_eq!(reversals[0].source_event, LedgerEntrySourceEvent::Reversion);
    assert_eq!(reversals[1].reverses_entry_id, Some(2));
    // Once the reversals are stored, reverting again does nothing.
    let mut t: i128 = 100;
    for r in &reversals {
        t += 1;
        ledger.push(LedgerEntry {
            id: 1000 + t as u128,
            storage_id: r.storage_id,
            product_id: r.product_id,
            contractor_id: r.contractor_id,
            quantity_delta: r.quantity_delta,
            source_kind: r.source_kind,
            source_id: r.source_id,
            source_event: r.source_event,
            reverses_entry_id: r.reverses_entry_id,
            created_at: t,
        });
    }
    assert!(reversal_deltas(&ledger, LedgerEntrySourceKind::AcceptanceDocument, 100).is_empty());
    let b = balance_by_dimensions(&ledger, 1, 2, 3).unwrap();
    assert_eq!(b.current_amount, q(9));
}

#[test]
fn revert_after_earlier_cycle_zeroes_the_source_rows() {
    // Executed once (rows 1, 2), reverted (row 3 cancels row 1 only so far),
    // executed again (row 4); a row of another document stays untouched.
    let mut reversal = entry(3, (1, 2, 3), -100, 30);
    reversal.source_event = LedgerEntrySourceEvent::Reversion;
    reversal.reverses_entry_id = Some(1);
    let mut other = entry(9, (7, 2, 3), 40, 35);
    other.source_id = 555;
    let mut ledger = vec![
        entry(1, (1, 2, 3), 100, 10),
        entry(2, (4, 2, 3), -30, 20),
        reversal,
        entry(4, (1, 5, 3), 70, 40),
        other,
    ];
    let reversals = reversal_deltas(&ledger, LedgerEntrySourceKind::AcceptanceDocument, 100);
    assert_eq!(reversals.len(), 2);
    assert_eq!(reversals[0].reverses_entry_id, Some(2));
    assert_eq!(reversals[0].quantity_delta, q(30));
    assert_eq!(reversals[1].reverses_entry_id, Some(4));
    assert_eq!(reversals[1].quantity_delta, q(-70));
    for (k, r) in reversals.iter().enumerate() {
        ledger.push(LedgerEntry {
            id: 50 + k as u128,
            storage_id: r.storage_id,
            product_id: r.product_id,
            contractor_id: r.contractor_id,
            quantity_delta: r.quantity_delta,
            source_kind: r.source_kind,
            source_id: r.source_id,
            source_event: r.source_event,
            reverses_entry_id: r.reverses_entry_id,
            created_at: 60 + k as i128,
        });
    }
    let source_sum: i128 = ledger
        .iter()
        .filter(|e| e.source_kind == LedgerEntrySourceKind::AcceptanceDocument && e.source_id == 100)
        .map(|e| e.quantity_delta.mantissa)
        .sum();
    assert_eq!(source_sum, 0);
    for dims in [(1u128, 2u128, 3u128), (4, 2, 3), (1, 5, 3)] {
        let b = balance_by_dimensions(&ledger, dims.0, dims.1, dims.2).unwrap();
        assert_eq!(b.current_amount.mantissa, 0);
    }
    let all_sum: i128 = ledger.iter().map(|e| e.quantity_delta.mantissa).sum();
    assert_eq!(all_sum, 40);
}

fn dec(mantissa: i128, scale: u32) -> Quantity {
    Quantity { mantissa, scale }
}

#[test]
fn decimal_quantities_keep_every_digit() {
    // A loss of 12.345 is taken out as -12.345, and put back on reversion.
    assert_eq!(adjustment_delta(&AdjustmentType::Loss, &dec(12345, 3)), dec(-12345, 3));
    // The smallest 64-bit amount is an ordinary decimal: it negates exactly.
    assert_eq!(adjustment_delta(&AdjustmentType::Loss, &dec(i64::MIN as i128, 0)), dec(-(i64::MIN as i128), 0));
    let mut row = entry(1, (1, 2, 3), 0, 10);
    row.quantity_delta = dec(12345, 3);
    let reversals = reversal_deltas(&vec![row], LedgerEntrySourceKind::AcceptanceDocument, 100);
    assert_eq!(reversals[0].quantity_delta, dec(-12345, 3));
    // Balances add decimals: 1.5 + 0.25 - 0.005 = 1.745.
    let mut a = entry(1, (1, 2, 3), 0, 10);
    a.quantity_delta = dec(15, 1);
    let mut b = entry(2, (1, 2, 3), 0, 20);
    b.quantity_delta = dec(25, 2);
    let mut c = entry(3, (1, 2, 3), 0, 30);
    c.quantity_delta = dec(-5, 3);
    let balance = derive_balance(&vec![a, b, c]).unwrap();
    assert_eq!(balance.current_amount, dec(1745, 3));
    assert_eq!(balance.latest_row.id, 3);
}

#[test]
fn blending_compares_decimal_totals_by_value() {
    let components = vec![
        BlendingComponent { id: 1, blending_doc_id: 500, storage_id: 1, source_product_id: 10, amount_used: dec(15, 1) },
        BlendingComponent { id: 2, blending_doc_id: 500, storage_id: 2, source_product_id: 11, amount_used: dec(50, 2) },
    ];
    let results = vec![BlendingResult { id: 3, blending_doc_id: 500, storage_id: 3, produced_amount: dec(20, 1) }];
    let deltas = blending_execution_deltas(&blending_doc(), &components, &results).unwrap();
    assert_eq!(deltas[0].quantity_delta, dec(-15, 1));
    assert_eq!(deltas[1].quantity_delta, dec(-50, 2));
    assert_eq!(deltas[2].quantity_delta, dec(20, 1));
    let short = vec![BlendingResult { id: 3, blending_doc_id: 500, storage_id: 3, produced_amount: dec(1999, 3) }];
    assert_eq!(
        blending_execution_deltas(&blending_doc(), &components, &short).unwrap_err(),
        DocumentError::BlendingTotalsMismatch
    );
}

#[test]
fn overflowing_decimal_sums_are_reported() {
    let max = dec(0xFFFF_FFFF_FFFF_FFFF_FFFF_FFFF, 0);
    let mut a = entry(1, (1, 2, 3), 0, 10);
    a.quantity_delta = max;
    let mut b = entry(2, (1, 2, 3), 0, 20);
    b.quantity_delta = max;
    let rows = vec![a, b];
    assert!(checked_derive_balance(&rows).is_none());
    assert!(checked_balance_by_dimensions(&rows, 1, 2, 3).is_none());
    assert!(checked_list_balances(&rows).is_none());
    assert!(matches!(checked_derive_balance(&vec![]), Some(None)));
    assert!(matches!(checked_balance_by_dimensions(&rows, 9, 9, 9), Some(None)));
    let fine = checked_list_balances(&vec![a]).unwrap();
    assert_eq!(fine[0].current_amount, max);
    let big = vec![
        BlendingComponent { id: 1, blending_doc_id: 500, storage_id: 1, source_product_id: 10, amount_used: max },
        BlendingComponent { id: 2, blending_doc_id: 500, storage_id: 2, source_product_id: 11, amount_used: max },
    ];
    let results = vec![BlendingResult { id: 3, blending_doc_id: 500, storage_id: 3, produced_amount: max }];
    assert!(checked_blending_execution_deltas(&blending_doc(), &big, &results).is_none());
    assert_eq!(
        checked_blending_execution_deltas(&blending_doc(), &big[..1].to_vec(), &results).unwrap().unwrap().len(),
        2
    );
}

#[test]
fn blending_of_mixed_scales_balances_exactly() {
    let components = vec![
        BlendingComponent { id: 1, blending_doc_id: 500, storage_id: 1, source_product_id: 10, amount_used: dec(15, 1) },
        BlendingComponent { id: 2, blending_doc_id: 500, storage_id: 2, source_product_id: 11, amount_used: dec(25, 2) },
    ];
    let results = vec![BlendingResult { id: 3, blending_doc_id: 500, storage_id: 3, produced_amount: dec(175, 2) }];
    let deltas = blending_execution_deltas(&blending_doc(), &components, &results).unwrap();
    // Written in hundredths: -150 - 25 + 175 = 0.
    let hundredths: i128 = deltas
        .iter()
        .map(|d| d.quantity_delta.mantissa * 10i128.pow(2 - d.quantity_delta.scale))
        .sum();
    assert_eq!(hundredths, 0);
}
