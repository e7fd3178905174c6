//! What executing and reverting a document does to the inventory balances.
//!
//! Acceptance, dispatch, ownership transfer and reconciliation documents change
//! balances directly (`BalanceChange`); blending and physical transfer documents
//! append ledger rows (`LedgerDelta`) that are later reversed row by row.
use vstd::prelude::*;

use crate::enums::{AdjustmentType, LedgerEntrySourceEvent, LedgerEntrySourceKind};
use crate::errors::DocumentError;
use crate::ledger::{
    has_reversal, in_dimension, is_execution_of, needs_reversal, planned_reversals, quantities_fit, reversal_of,
    LedgerDelta, LedgerEntry,
};
use crate::quantity::{
    all_fit, lemma_negated_value, quantity_less, spec_total, sum_is_exact, total, value_total, Quantity,
};
use crate::models::{
    AcceptanceDocument, AcceptanceItem, BlendingComponent, BlendingDocument, BlendingResult,
    DispatchDocument, DispatchItem, InventoryAdjustment, InventoryReconciliation,
    OwnershipTransferItem, PhysicalStorageTransfer, PhysicalTransferItem,
};

verus! {

/// A change of the balance of one (storage, product, contractor) dimension.
#[derive(Debug, Clone, Copy)]
pub struct BalanceChange {
    pub storage_id: u128,
    pub product_id: u128,
    pub contractor_id: u128,
    pub delta: Quantity,
}

// ---------------------------------------------------------------------------
// Net effect of a sequence of changes
// ---------------------------------------------------------------------------

/// Net change of one dimension.
pub open spec fn change_net(changes: Seq<BalanceChange>, storage_id: u128, product_id: u128, contractor_id: u128) -> int
    decreases changes.len(),
{
    if changes.len() == 0 {
        0
    } else {
        let c = changes.last();
        change_net(changes.drop_last(), storage_id, product_id, contractor_id) + if c.storage_id
            == storage_id && c.product_id == product_id && c.contractor_id == contractor_id {
            c.delta.value()
        } else {
            0
        }
    }
}

/// Net change of a product in a storage, over all contractors.
pub open spec fn change_net_in_storage(changes: Seq<BalanceChange>, storage_id: u128, product_id: u128) -> int
    decreases changes.len(),
{
    if changes.len() == 0 {
        0
    } else {
        let c = changes.last();
        change_net_in_storage(changes.drop_last(), storage_id, product_id) + if c.storage_id
            == storage_id && c.product_id == product_id {
            c.delta.value()
        } else {
            0
        }
    }
}

/// Net change of one dimension by ledger rows.
pub open spec fn delta_net(deltas: Seq<LedgerDelta>, storage_id: u128, product_id: u128, contractor_id: u128) -> int
    decreases deltas.len(),
{
    if deltas.len() == 0 {
        0
    } else {
        let d = deltas.last();
        delta_net(deltas.drop_last(), storage_id, product_id, contractor_id) + if d.storage_id
            == storage_id && d.product_id == product_id && d.contractor_id == contractor_id {
            d.quantity_delta.value()
        } else {
            0
        }
    }
}

/// Net change of a product owned by a contractor, over all storages.
pub open spec fn delta_net_owned(deltas: Seq<LedgerDelta>, product_id: u128, contractor_id: u128) -> int
    decreases deltas.len(),
{
    if deltas.len() == 0 {
        0
    } else {
        let d = deltas.last();
        delta_net_owned(deltas.drop_last(), product_id, contractor_id) + if d.product_id
            == product_id && d.contractor_id == contractor_id {
            d.quantity_delta.value()
        } else {
            0
        }
    }
}

/// Sum of all quantities of the ledger rows.
pub open spec fn delta_total(deltas: Seq<LedgerDelta>) -> int
    decreases deltas.len(),
{
    if deltas.len() == 0 {
        0
    } else {
        delta_total(deltas.drop_last()) + deltas.last().quantity_delta.value()
    }
}

pub proof fn lemma_change_net_concat(a: Seq<BalanceChange>, b: Seq<BalanceChange>, s: u128, p: u128, c: u128)
    ensures
        change_net(a + b, s, p, c) == change_net(a, s, p, c) + change_net(b, s, p, c),
    decreases b.len(),
{
    if b.len() == 0 {
        assert(a + b =~= a);
    } else {
        assert((a + b).drop_last() =~= a + b.drop_last());
        lemma_change_net_concat(a, b.drop_last(), s, p, c);
    }
}

/// Two sequences that change the same dimensions by opposite amounts have
/// opposite net changes.
pub proof fn lemma_change_net_negated(a: Seq<BalanceChange>, b: Seq<BalanceChange>, s: u128, p: u128, c: u128)
    requires
        a.len() == b.len(),
        forall|i: int|
            0 <= i < a.len() ==> (#[trigger] a[i]).storage_id == b[i].storage_id && a[i].product_id
                == b[i].product_id && a[i].contractor_id == b[i].contractor_id && b[i].delta.value() == -a[i].delta.value(),
    ensures
        change_net(b, s, p, c) == -change_net(a, s, p, c),
    decreases a.len(),
{
    if a.len() > 0 {
        let a2 = a.drop_last();
        let b2 = b.drop_last();
        assert forall|i: int| 0 <= i < a2.len() implies (#[trigger] a2[i]).storage_id == b2[i].storage_id
            && a2[i].product_id == b2[i].product_id && a2[i].contractor_id == b2[i].contractor_id
            && b2[i].delta.value() == -a2[i].delta.value() by {
            assert(a2[i] == a[i]);
            assert(b2[i] == b[i]);
        }
        lemma_change_net_negated(a2, b2, s, p, c);
        assert(a.last() == a[a.len() - 1]);
    }
}

// ---------------------------------------------------------------------------
// Acceptance
// ---------------------------------------------------------------------------

/// Executing an acceptance adds each accepted amount to the item's storage and
/// product, owned by the document's contractor.
pub open spec fn spec_acceptance_execution(contractor_id: u128, items: Seq<AcceptanceItem>) -> Seq<BalanceChange> {
    Seq::new(
        items.len(),
        |i: int|
            BalanceChange {
                storage_id: items[i].storage_id,
                product_id: items[i].product_id,
                contractor_id,
                delta: items[i].accepted_amount,
            },
    )
}

/// Reverting an acceptance takes each accepted amount back out.
pub open spec fn spec_acceptance_reversion(contractor_id: u128, items: Seq<AcceptanceItem>) -> Seq<BalanceChange> {
    Seq::new(
        items.len(),
        |i: int|
            BalanceChange {
                storage_id: items[i].storage_id,
                product_id: items[i].product_id,
                contractor_id,
                delta: items[i].accepted_amount.spec_negated(),
            },
    )
}

/// The balance changes of executing an acceptance document; refused for a
/// document without items.
pub fn acceptance_execution_changes(doc: &AcceptanceDocument, items: &Vec<AcceptanceItem>) -> (res: Result<
    Vec<BalanceChange>,
    DocumentError,
>)
    ensures
        items@.len() == 0 <==> res is Err,
        res matches Err(e) ==> e == DocumentError::AcceptanceWithoutItems,
        res matches Ok(v) ==> v@ == spec_acceptance_execution(doc.contractor_id, items@),
{
    if items.len() == 0 {
        return Err(DocumentError::AcceptanceWithoutItems);
    }
    let mut out: Vec<BalanceChange> = Vec::new();
    let mut i: usize = 0;
    while i < items.len()
        invariant
            i <= items.len(),
            out@ =~= spec_acceptance_execution(doc.contractor_id, items@.take(i as int)),
        decreases items.len() - i,
    {
        let item = &items[i];
        out.push(
            BalanceChange {
                storage_id: item.storage_id,
                product_id: item.product_id,
                contractor_id: doc.contractor_id,
                delta: item.accepted_amount,
            },
        );
        i = i + 1;
    }
    assert(items@.take(items.len() as int) =~= items@);
    Ok(out)
}

/// The balance changes of reverting an acceptance document.
pub fn acceptance_reversion_changes(doc: &AcceptanceDocument, items: &Vec<AcceptanceItem>) -> (res: Vec<
    BalanceChange,
>)
    requires
        forall|i: int| 0 <= i < items@.len() ==> #[trigger] items@[i].accepted_amount.fits(),
    ensures
        res@ == spec_acceptance_reversion(doc.contractor_id, items@),
{
    let mut out: Vec<BalanceChange> = Vec::new();
    let mut i: usize = 0;
    while i < items.len()
        invariant
            i <= items.len(),
            forall|i: int| 0 <= i < items@.len() ==> #[trigger] items@[i].accepted_amount.fits(),
            out@ =~= spec_acceptance_reversion(doc.contractor_id, items@.take(i as int)),
        decreases items.len() - i,
    {
        let item = &items[i];
        out.push(
            BalanceChange {
                storage_id: item.storage_id,
                product_id: item.product_id,
                contractor_id: doc.contractor_id,
                delta: item.accepted_amount.negated(),
            },
        );
        i = i + 1;
    }
    assert(items@.take(items.len() as int) =~= items@);
    out
}

/// Reverting an acceptance cancels its execution: after both, every balance is
/// what it was before.
pub proof fn law_acceptance_reversion_cancels_execution(
    contractor_id: u128,
    items: Seq<AcceptanceItem>,
    storage_id: u128,
    product_id: u128,
    owner_id: u128,
)
    requires
        forall|i: int| 0 <= i < items.len() ==> #[trigger] items[i].accepted_amount.fits(),
    ensures
        change_net(
            spec_acceptance_execution(contractor_id, items) + spec_acceptance_reversion(contractor_id, items),
            storage_id,
            product_id,
            owner_id,
        ) == 0,
{
    let a = spec_acceptance_execution(contractor_id, items);
    let b = spec_acceptance_reversion(contractor_id, items);
    lemma_change_net_concat(a, b, storage_id, product_id, owner_id);
    assert forall|i: int| 0 <= i < a.len() implies (#[trigger] a[i]).storage_id == b[i].storage_id && a[i].product_id
        == b[i].product_id && a[i].contractor_id == b[i].contractor_id && b[i].delta.value() == -a[i].delta.value() by {
        lemma_negated_value(items[i].accepted_amount);
    }
    lemma_change_net_negated(a, b, storage_id, product_id, owner_id);
}

// ---------------------------------------------------------------------------
// Dispatch
// ---------------------------------------------------------------------------

/// Executing a dispatch takes each dispatched amount out of the item's storage
/// and product, owned by the document's contractor.
pub open spec fn spec_dispatch_execution(contractor_id: u128, items: Seq<DispatchItem>) -> Seq<BalanceChange> {
    Seq::new(
        items.len(),
        |i: int|
            BalanceChange {
                storage_id: items[i].storage_id,
                product_id: items[i].product_id,
                contractor_id,
                delta: items[i].dispatched_amount.spec_negated(),
            },
    )
}

/// Reverting a dispatch puts each dispatched amount back.
pub open spec fn spec_dispatch_reversion(contractor_id: u128, items: Seq<DispatchItem>) -> Seq<BalanceChange> {
    Seq::new(
        items.len(),
        |i: int|
            BalanceChange {
                storage_id: items[i].storage_id,
                product_id: items[i].product_id,
                contractor_id,
                delta: items[i].dispatched_amount,
            },
    )
}

/// The balance changes of executing a dispatch document.
pub fn dispatch_execution_changes(doc: &DispatchDocument, items: &Vec<DispatchItem>) -> (res: Vec<BalanceChange>)
    requires
        forall|i: int| 0 <= i < items@.len() ==> #[trigger] items@[i].dispatched_amount.fits(),
    ensures
        res@ == spec_dispatch_execution(doc.contractor_id, items@),
{
    let mut out: Vec<BalanceChange> = Vec::new();
    let mut i: usize = 0;
    while i < items.len()
        invariant
            i <= items.len(),
            forall|i: int| 0 <= i < items@.len() ==> #[trigger] items@[i].dispatched_amount.fits(),
            out@ =~= spec_dispatch_execution(doc.contractor_id, items@.take(i as int)),
        decreases items.len() - i,
    {
        let item = &items[i];
        out.push(
            BalanceChange {
                storage_id: item.storage_id,
                product_id: item.product_id,
                contractor_id: doc.contractor_id,
                delta: item.dispatched_amount.negated(),
            },
        );
        i = i + 1;
    }
    assert(items@.take(items.len() as int) =~= items@);
    out
}

/// The balance changes of reverting a dispatch document.
pub fn dispatch_reversion_changes(doc: &DispatchDocument, items: &Vec<DispatchItem>) -> (res: Vec<BalanceChange>)
    ensures
        res@ == spec_dispatch_reversion(doc.contractor_id, items@),
{
    let mut out: Vec<BalanceChange> = Vec::new();
    let mut i: usize = 0;
    while i < items.len()
        invariant
            i <= items.len(),
            out@ =~= spec_dispatch_reversion(doc.contractor_id, items@.take(i as int)),
        decreases items.len() - i,
    {
        let item = &items[i];
        out.push(
            BalanceChange {
                storage_id: item.storage_id,
                product_id: item.product_id,
                contractor_id: doc.contractor_id,
                delta: item.dispatched_amount,
            },
        );
        i = i + 1;
    }
    assert(items@.take(items.len() as int) =~= items@);
    out
}

/// Reverting a dispatch cancels its execution.
pub proof fn law_dispatch_reversion_cancels_execution(
    contractor_id: u128,
    items: Seq<DispatchItem>,
    storage_id: u128,
    product_id: u128,
    owner_id: u128,
)
    requires
        forall|i: int| 0 <= i < items.len() ==> #[trigger] items[i].dispatched_amount.fits(),
    ensures
        change_net(
            spec_dispatch_execution(contractor_id, items) + spec_dispatch_reversion(contractor_id, items),
            storage_id,
            product_id,
            owner_id,
        ) == 0,
{
    let a = spec_dispatch_execution(contractor_id, items);
    let b = spec_dispatch_reversion(contractor_id, items);
    lemma_change_net_concat(a, b, storage_id, product_id, owner_id);
    assert forall|i: int| 0 <= i < a.len() implies (#[trigger] a[i]).storage_id == b[i].storage_id && a[i].product_id
        == b[i].product_id && a[i].contractor_id == b[i].contractor_id && b[i].delta.value() == -a[i].delta.value() by {
        lemma_negated_value(items[i].dispatched_amount);
    }
    lemma_change_net_negated(a, b, storage_id, product_id, owner_id);
}

// ---------------------------------------------------------------------------
// Inventory reconciliation
// ---------------------------------------------------------------------------

/// The signed quantity of an adjustment: a surplus adds, a loss removes.
pub open spec fn spec_adjustment_delta(adjustment_type: AdjustmentType, amount: Quantity) -> Quantity {
    match adjustment_type {
        AdjustmentType::Surplus => amount,
        AdjustmentType::Loss => amount.spec_negated(),
    }
}

/// The signed quantity of an adjustment: a surplus adds, a loss removes.
pub fn adjustment_delta(adjustment_type: &AdjustmentType, amount: &Quantity) -> (res: Quantity)
    requires
        amount.fits(),
    ensures
        res == spec_adjustment_delta(*adjustment_type, *amount),
        res.fits(),
{
    proof {
        lemma_negated_value(*amount);
    }
    match adjustment_type {
        AdjustmentType::Surplus => *amount,
        AdjustmentType::Loss => amount.negated(),
    }
}

/// Executing a reconciliation applies each adjustment, owned by the document's
/// contractor.
pub open spec fn spec_reconciliation_execution(contractor_id: u128, adjustments: Seq<InventoryAdjustment>) -> Seq<
    BalanceChange,
> {
    Seq::new(
        adjustments.len(),
        |i: int|
            BalanceChange {
                storage_id: adjustments[i].storage_id,
                product_id: adjustments[i].product_id,
                contractor_id,
                delta: spec_adjustment_delta(adjustments[i].adjustment_type, adjustments[i].amount),
            },
    )
}

/// Reverting a reconciliation applies each adjustment with the opposite sign.
pub open spec fn spec_reconciliation_reversion(contractor_id: u128, adjustments: Seq<InventoryAdjustment>) -> Seq<
    BalanceChange,
> {
    Seq::new(
        adjustments.len(),
        |i: int|
            BalanceChange {
                storage_id: adjustments[i].storage_id,
                product_id: adjustments[i].product_id,
                contractor_id,
                delta: spec_adjustment_delta(adjustments[i].adjustment_type, adjustments[i].amount).spec_negated(),
            },
    )
}

/// The balance changes of executing (`revert == false`) or reverting
/// (`revert == true`) an inventory reconciliation.
pub fn reconciliation_changes(doc: &InventoryReconciliation, adjustments: &Vec<InventoryAdjustment>, revert: bool) -> (res: Vec<
    BalanceChange,
>)
    requires
        forall|i: int| 0 <= i < adjustments@.len() ==> #[trigger] adjustments@[i].amount.fits(),
    ensures
        !revert ==> res@ == spec_reconciliation_execution(doc.contractor_id, adjustments@),
        revert ==> res@ == spec_reconciliation_reversion(doc.contractor_id, adjustments@),
{
    let mut out: Vec<BalanceChange> = Vec::new();
    let mut i: usize = 0;
    while i < adjustments.len()
        invariant
            i <= adjustments.len(),
            forall|i: int| 0 <= i < adjustments@.len() ==> #[trigger] adjustments@[i].amount.fits(),
            !revert ==> out@ =~= spec_reconciliation_execution(doc.contractor_id, adjustments@.take(i as int)),
            revert ==> out@ =~= spec_reconciliation_reversion(doc.contractor_id, adjustments@.take(i as int)),
        decreases adjustments.len() - i,
    {
        let adjustment = &adjustments[i];
        let delta = adjustment_delta(&adjustment.adjustment_type, &adjustment.amount);
        out.push(
            BalanceChange {
                storage_id: adjustment.storage_id,
                product_id: adjustment.product_id,
                contractor_id: doc.contractor_id,
                delta: if revert { delta.negated() } else { delta },
            },
        );
        i = i + 1;
    }
    assert(adjustments@.take(adjustments.len() as int) =~= adjustments@);
    out
}

/// Reverting a reconciliation cancels its execution.
pub proof fn law_reconciliation_reversion_cancels_execution(
    contractor_id: u128,
    adjustments: Seq<InventoryAdjustment>,
    storage_id: u128,
    product_id: u128,
    owner_id: u128,
)
    requires
        forall|i: int| 0 <= i < adjustments.len() ==> #[trigger] adjustments[i].amount.fits(),
    ensures
        change_net(
            spec_reconciliation_execution(contractor_id, adjustments) + spec_reconciliation_reversion(
                contractor_id,
                adjustments,
            ),
            storage_id,
            product_id,
            owner_id,
        ) == 0,
{
    let a = spec_reconciliation_execution(contractor_id, adjustments);
    let b = spec_reconciliation_reversion(contractor_id, adjustments);
    lemma_change_net_concat(a, b, storage_id, product_id, owner_id);
    assert forall|i: int| 0 <= i < a.len() implies (#[trigger] a[i]).storage_id == b[i].storage_id && a[i].product_id
        == b[i].product_id && a[i].contractor_id == b[i].contractor_id && b[i].delta.value() == -a[i].delta.value() by {
        lemma_negated_value(adjustments[i].amount);
        lemma_negated_value(spec_adjustment_delta(adjustments[i].adjustment_type, adjustments[i].amount));
    }
    lemma_change_net_negated(a, b, storage_id, product_id, owner_id);
}

// ---------------------------------------------------------------------------
// Ownership transfer
// ---------------------------------------------------------------------------

/// Executing an ownership transfer moves each amount from the giving to the
/// receiving contractor, in the same storage and product; `sign` is 1 for the
/// execution and -1 for the reversion.
pub open spec fn spec_ownership_changes(items: Seq<OwnershipTransferItem>, sign: int) -> Seq<BalanceChange>
    decreases items.len(),
{
    if items.len() == 0 {
        Seq::empty()
    } else {
        let it = items.last();
        spec_ownership_changes(items.drop_last(), sign) + seq![
            BalanceChange {
                storage_id: it.storage_id,
                product_id: it.product_id,
                contractor_id: it.from_contractor_id,
                delta: if sign == 1 { it.amount.spec_negated() } else { it.amount },
            },
            BalanceChange {
                storage_id: it.storage_id,
                product_id: it.product_id,
                contractor_id: it.to_contractor_id,
                delta: if sign == 1 { it.amount } else { it.amount.spec_negated() },
            },
        ]
    }
}

/// The balance changes of executing (`revert == false`) or reverting
/// (`revert == true`) an ownership transfer.
pub fn ownership_transfer_changes(items: &Vec<OwnershipTransferItem>, revert: bool) -> (res: Vec<BalanceChange>)
    requires
        forall|i: int| 0 <= i < items@.len() ==> #[trigger] items@[i].amount.fits(),
    ensures
        res@ == spec_ownership_changes(items@, if revert { -1 } else { 1 }),
{
    let ghost sign: int = if revert { -1 } else { 1 };
    let mut out: Vec<BalanceChange> = Vec::new();
    let mut i: usize = 0;
    while i < items.len()
        invariant
            i <= items.len(),
            sign == (if revert { -1int } else { 1int }),
            forall|i: int| 0 <= i < items@.len() ==> #[trigger] items@[i].amount.fits(),
            out@ =~= spec_ownership_changes(items@.take(i as int), sign),
        decreases items.len() - i,
    {
        let item = &items[i];
        assert(items@.take(i + 1).drop_last() =~= items@.take(i as int));
        let (from_delta, to_delta) = if revert {
            (item.amount, item.amount.negated())
        } else {
            (item.amount.negated(), item.amount)
        };
        out.push(
            BalanceChange {
                storage_id: item.storage_id,
                product_id: item.product_id,
                contractor_id: item.from_contractor_id,
                delta: from_delta,
            },
        );
        out.push(
            BalanceChange {
                storage_id: item.storage_id,
                product_id: item.product_id,
                contractor_id: item.to_contractor_id,
                delta: to_delta,
            },
        );
        i = i + 1;
    }
    assert(items@.take(items.len() as int) =~= items@);
    out
}

proof fn lemma_change_net_in_storage_concat(a: Seq<BalanceChange>, b: Seq<BalanceChange>, s: u128, p: u128)
    ensures
        change_net_in_storage(a + b, s, p) == change_net_in_storage(a, s, p) + change_net_in_storage(b, s, p),
    decreases b.len(),
{
    if b.len() == 0 {
        assert(a + b =~= a);
    } else {
        assert((a + b).drop_last() =~= a + b.drop_last());
        lemma_change_net_in_storage_concat(a, b.drop_last(), s, p);
    }
}

/// An ownership transfer changes who owns the goods, never how much of a product
/// a storage holds.
pub proof fn law_ownership_transfer_conserves_storage_stock(
    items: Seq<OwnershipTransferItem>,
    sign: int,
    storage_id: u128,
    product_id: u128,
)
    requires
        sign == 1 || sign == -1,
        forall|i: int| 0 <= i < items.len() ==> #[trigger] items[i].amount.fits(),
    ensures
        change_net_in_storage(spec_ownership_changes(items, sign), storage_id, product_id) == 0,
    decreases items.len(),
{
    if items.len() > 0 {
        let rest = items.drop_last();
        assert forall|i: int| 0 <= i < rest.len() implies #[trigger] rest[i].amount.fits() by {
            assert(rest[i] == items[i]);
        }
        law_ownership_transfer_conserves_storage_stock(rest, sign, storage_id, product_id);
        let it = items.last();
        assert(it == items[items.len() - 1]);
        let pair = seq![
            BalanceChange {
                storage_id: it.storage_id,
                product_id: it.product_id,
                contractor_id: it.from_contractor_id,
                delta: if sign == 1 { it.amount.spec_negated() } else { it.amount },
            },
            BalanceChange {
                storage_id: it.storage_id,
                product_id: it.product_id,
                contractor_id: it.to_contractor_id,
                delta: if sign == 1 { it.amount } else { it.amount.spec_negated() },
            },
        ];
        assert(spec_ownership_changes(items, sign) == spec_ownership_changes(rest, sign) + pair);
        lemma_change_net_in_storage_concat(spec_ownership_changes(rest, sign), pair, storage_id, product_id);
        assert(pair.drop_last() =~= seq![pair[0]]);
        assert(seq![pair[0]].drop_last() =~= Seq::<BalanceChange>::empty());
        lemma_negated_value(it.amount);
        assert(pair[0].delta.value() == -sign * it.amount.value());
        assert(pair[1].delta.value() == sign * it.amount.value());
        assert(change_net_in_storage(Seq::<BalanceChange>::empty(), storage_id, product_id) == 0);
        assert(change_net_in_storage(seq![pair[0]], storage_id, product_id) == if it.storage_id == storage_id && it.product_id == product_id { -sign * it.amount.value() } else { 0 });
        assert(change_net_in_storage(pair, storage_id, product_id) == 0);
    }
}

/// Reverting an ownership transfer cancels its execution.
pub proof fn law_ownership_reversion_cancels_execution(
    items: Seq<OwnershipTransferItem>,
    storage_id: u128,
    product_id: u128,
    owner_id: u128,
)
    requires
        forall|i: int| 0 <= i < items.len() ==> #[trigger] items[i].amount.fits(),
    ensures
        change_net(spec_ownership_changes(items, 1) + spec_ownership_changes(items, -1), storage_id, product_id, owner_id) == 0,
{
    let a = spec_ownership_changes(items, 1);
    let b = spec_ownership_changes(items, -1);
    lemma_ownership_pointwise(items);
    lemma_change_net_concat(a, b, storage_id, product_id, owner_id);
    lemma_change_net_negated(a, b, storage_id, product_id, owner_id);
}

proof fn lemma_ownership_pointwise(items: Seq<OwnershipTransferItem>)
    requires
        forall|i: int| 0 <= i < items.len() ==> #[trigger] items[i].amount.fits(),
    ensures
        spec_ownership_changes(items, 1).len() == spec_ownership_changes(items, -1).len(),
        spec_ownership_changes(items, 1).len() == 2 * items.len(),
        forall|i: int|
            0 <= i < spec_ownership_changes(items, 1).len() ==> (#[trigger] spec_ownership_changes(items, 1)[i]).storage_id
                == spec_ownership_changes(items, -1)[i].storage_id && spec_ownership_changes(items, 1)[i].product_id
                == spec_ownership_changes(items, -1)[i].product_id && spec_ownership_changes(items, 1)[i].contractor_id
                == spec_ownership_changes(items, -1)[i].contractor_id && spec_ownership_changes(items, -1)[i].delta.value()
                == -spec_ownership_changes(items, 1)[i].delta.value(),
    decreases items.len(),
{
    if items.len() > 0 {
        let rest = items.drop_last();
        assert forall|i: int| 0 <= i < rest.len() implies #[trigger] rest[i].amount.fits() by {
            assert(rest[i] == items[i]);
        }
        lemma_ownership_pointwise(rest);
        assert(items.last() == items[items.len() - 1]);
        let a = spec_ownership_changes(items, 1);
        let b = spec_ownership_changes(items, -1);
        let a2 = spec_ownership_changes(rest, 1);
        let b2 = spec_ownership_changes(rest, -1);
        assert forall|i: int| 0 <= i < a.len() implies (#[trigger] a[i]).storage_id == b[i].storage_id
            && a[i].product_id == b[i].product_id && a[i].contractor_id == b[i].contractor_id
            && b[i].delta.value() == -a[i].delta.value() by {
            lemma_negated_value(items.last().amount);
            if i < a2.len() {
                assert(a[i] == a2[i]);
                assert(b[i] == b2[i]);
            }
        }
    }
}

// ---------------------------------------------------------------------------
// Blending
// ---------------------------------------------------------------------------

/// Exact sum of the amounts used by the components.
pub open spec fn components_total(components: Seq<BlendingComponent>) -> int
    decreases components.len(),
{
    if components.len() == 0 {
        0
    } else {
        components_total(components.drop_last()) + components.last().amount_used.value()
    }
}

/// Exact sum of the amounts produced by the results.
pub open spec fn results_total(results: Seq<BlendingResult>) -> int
    decreases results.len(),
{
    if results.len() == 0 {
        0
    } else {
        results_total(results.drop_last()) + results.last().produced_amount.value()
    }
}

/// The amounts used by the components, in order.
pub open spec fn component_amounts(components: Seq<BlendingComponent>) -> Seq<Quantity> {
    components.map_values(|c: BlendingComponent| c.amount_used)
}

/// The amounts produced by the results, in order.
pub open spec fn result_amounts(results: Seq<BlendingResult>) -> Seq<Quantity> {
    results.map_values(|r: BlendingResult| r.produced_amount)
}

/// Whether the decimal totals of the components and of the results can be
/// formed (their decimal sums do not overflow).
pub open spec fn blending_totals_defined(components: Seq<BlendingComponent>, results: Seq<BlendingResult>) -> bool {
    spec_total(component_amounts(components)) is Some && spec_total(result_amounts(results)) is Some
}

/// Whether the decimal totals of the components and of the results are equal.
pub open spec fn blending_totals_match(components: Seq<BlendingComponent>, results: Seq<BlendingResult>) -> bool {
    match (spec_total(component_amounts(components)), spec_total(result_amounts(results))) {
        (Some(a), Some(b)) => a.value() == b.value(),
        _ => false,
    }
}

/// What executing a blending gives: refused without components, without
/// results, or when the decimal totals of the components and the results
/// differ; otherwise its ledger rows.
pub open spec fn blending_outcome(
    doc: BlendingDocument,
    components: Seq<BlendingComponent>,
    results: Seq<BlendingResult>,
    res: Result<Seq<LedgerDelta>, DocumentError>,
) -> bool {
    if components.len() == 0 {
        res == Err::<Seq<LedgerDelta>, DocumentError>(DocumentError::BlendingWithoutComponents)
    } else if results.len() == 0 {
        res == Err::<Seq<LedgerDelta>, DocumentError>(DocumentError::BlendingWithoutResults)
    } else if !blending_totals_match(components, results) {
        res == Err::<Seq<LedgerDelta>, DocumentError>(DocumentError::BlendingTotalsMismatch)
    } else {
        res == Ok::<Seq<LedgerDelta>, DocumentError>(spec_blending_execution(doc, components, results))
    }
}

/// The view of an outcome with ledger rows.
pub open spec fn deltas_result_view(res: Result<Vec<LedgerDelta>, DocumentError>) -> Result<
    Seq<LedgerDelta>,
    DocumentError,
> {
    match res {
        Ok(v) => Ok(v@),
        Err(e) => Err(e),
    }
}

/// The ledger rows of executing a blending: each component is taken out of its
/// storage as its source product, then each result is put into its storage as
/// the target product, all owned by the document's contractor.
pub open spec fn spec_blending_execution(doc: BlendingDocument, components: Seq<BlendingComponent>, results: Seq<BlendingResult>) -> Seq<
    LedgerDelta,
> {
    Seq::new(
        components.len(),
        |i: int|
            LedgerDelta {
                storage_id: components[i].storage_id,
                product_id: components[i].source_product_id,
                contractor_id: doc.contractor_id,
                quantity_delta: components[i].amount_used.spec_negated(),
                source_kind: LedgerEntrySourceKind::BlendingDocument,
                source_id: doc.id,
                source_event: LedgerEntrySourceEvent::Execution,
                reverses_entry_id: None,
            },
    ) + Seq::new(
        results.len(),
        |i: int|
            LedgerDelta {
                storage_id: results[i].storage_id,
                product_id: doc.target_product_id,
                contractor_id: doc.contractor_id,
                quantity_delta: results[i].produced_amount,
                source_kind: LedgerEntrySourceKind::BlendingDocument,
                source_id: doc.id,
                source_event: LedgerEntrySourceEvent::Execution,
                reverses_entry_id: None,
            },
    )
}

proof fn lemma_component_amounts_total(components: Seq<BlendingComponent>)
    ensures
        value_total(component_amounts(components)) == components_total(components),
    decreases components.len(),
{
    if components.len() > 0 {
        lemma_component_amounts_total(components.drop_last());
        assert(component_amounts(components).drop_last() =~= component_amounts(components.drop_last()));
    }
}

proof fn lemma_result_amounts_total(results: Seq<BlendingResult>)
    ensures
        value_total(result_amounts(results)) == results_total(results),
    decreases results.len(),
{
    if results.len() > 0 {
        lemma_result_amounts_total(results.drop_last());
        assert(result_amounts(results).drop_last() =~= result_amounts(results.drop_last()));
    }
}

/// The amounts used by the components.
fn amounts_used(components: &Vec<BlendingComponent>) -> (res: Vec<Quantity>)
    ensures
        res@ == component_amounts(components@),
{
    let mut out: Vec<Quantity> = Vec::new();
    let mut i: usize = 0;
    while i < components.len()
        invariant
            i <= components.len(),
            out@ == component_amounts(components@.take(i as int)),
        decreases components.len() - i,
    {
        out.push(components[i].amount_used);
        assert(component_amounts(components@.take(i + 1)) =~= component_amounts(components@.take(i as int)).push(
            components@[i as int].amount_used,
        ));
        i = i + 1;
    }
    assert(components@.take(components.len() as int) =~= components@);
    out
}

/// The amounts produced by the results.
fn amounts_produced(results: &Vec<BlendingResult>) -> (res: Vec<Quantity>)
    ensures
        res@ == result_amounts(results@),
{
    let mut out: Vec<Quantity> = Vec::new();
    let mut i: usize = 0;
    while i < results.len()
        invariant
            i <= results.len(),
            out@ == result_amounts(results@.take(i as int)),
        decreases results.len() - i,
    {
        out.push(results[i].produced_amount);
        assert(result_amounts(results@.take(i + 1)) =~= result_amounts(results@.take(i as int)).push(
            results@[i as int].produced_amount,
        ));
        i = i + 1;
    }
    assert(results@.take(results.len() as int) =~= results@);
    out
}

/// Executing a blending: refused without components, without results, or when
/// the decimal totals of the components and the results differ; otherwise its
/// ledger rows.
pub fn blending_execution_deltas(
    doc: &BlendingDocument,
    components: &Vec<BlendingComponent>,
    results: &Vec<BlendingResult>,
) -> (res: Result<Vec<LedgerDelta>, DocumentError>)
    requires
        all_fit(component_amounts(components@)),
        all_fit(result_amounts(results@)),
        components@.len() > 0 && results@.len() > 0 ==> blending_totals_defined(components@, results@),
    ensures
        blending_outcome(*doc, components@, results@, deltas_result_view(res)),
        res is Ok && sum_is_exact(component_amounts(components@)) && sum_is_exact(result_amounts(results@))
            ==> delta_total(spec_blending_execution(*doc, components@, results@)) == 0,
{
    if components.len() == 0 {
        return Err(DocumentError::BlendingWithoutComponents);
    }
    if results.len() == 0 {
        return Err(DocumentError::BlendingWithoutResults);
    }
    let used = amounts_used(components);
    let produced = amounts_produced(results);
    let (comps_total, res_total) = match (total(&used), total(&produced)) {
        (Some(a), Some(b)) => (a, b),
        _ => {
            return Err(DocumentError::BlendingTotalsMismatch);
        },
    };
    if quantity_less(comps_total, res_total) || quantity_less(res_total, comps_total) {
        return Err(DocumentError::BlendingTotalsMismatch);
    }
    assert(forall|i: int| 0 <= i < components@.len() ==> #[trigger] components@[i].amount_used.fits()) by {
        assert forall|i: int| 0 <= i < components@.len() implies #[trigger] components@[i].amount_used.fits() by {
            assert(component_amounts(components@)[i] == components@[i].amount_used);
        }
    }
    proof {
        lemma_component_amounts_total(components@);
        lemma_result_amounts_total(results@);
        if sum_is_exact(component_amounts(components@)) && sum_is_exact(result_amounts(results@)) {
            assert(components_total(components@) == results_total(results@));
            law_blending_conserves_quantity(*doc, components@, results@);
        }
    }
    let ghost comp_part = spec_blending_execution(*doc, components@, Seq::<BlendingResult>::empty());
    let mut out: Vec<LedgerDelta> = Vec::new();
    let mut k: usize = 0;
    while k < components.len()
        invariant
            k <= components.len(),
            forall|i: int| 0 <= i < components@.len() ==> #[trigger] components@[i].amount_used.fits(),
            comp_part == spec_blending_execution(*doc, components@, Seq::<BlendingResult>::empty()),
            out@ =~= comp_part.take(k as int),
        decreases components.len() - k,
    {
        let comp = &components[k];
        out.push(
            LedgerDelta {
                storage_id: comp.storage_id,
                product_id: comp.source_product_id,
                contractor_id: doc.contractor_id,
                quantity_delta: comp.amount_used.negated(),
                source_kind: LedgerEntrySourceKind::BlendingDocument,
                source_id: doc.id,
                source_event: LedgerEntrySourceEvent::Execution,
                reverses_entry_id: None,
            },
        );
        k = k + 1;
    }
    assert(comp_part.take(components.len() as int) =~= comp_part);
    let ghost res_part = spec_blending_execution(*doc, Seq::<BlendingComponent>::empty(), results@);
    let mut m: usize = 0;
    while m < results.len()
        invariant
            m <= results.len(),
            res_part == spec_blending_execution(*doc, Seq::<BlendingComponent>::empty(), results@),
            comp_part == spec_blending_execution(*doc, components@, Seq::<BlendingResult>::empty()),
            out@ =~= comp_part + res_part.take(m as int),
        decreases results.len() - m,
    {
        let r = &results[m];
        out.push(
            LedgerDelta {
                storage_id: r.storage_id,
                product_id: doc.target_product_id,
                contractor_id: doc.contractor_id,
                quantity_delta: r.produced_amount,
                source_kind: LedgerEntrySourceKind::BlendingDocument,
                source_id: doc.id,
                source_event: LedgerEntrySourceEvent::Execution,
                reverses_entry_id: None,
            },
        );
        m = m + 1;
    }
    assert(res_part.take(results.len() as int) =~= res_part);
    assert(out@ =~= spec_blending_execution(*doc, components@, results@));
    Ok(out)
}

/// Executing a blending, or none where a decimal total of its components or of
/// its results overflows.
pub fn checked_blending_execution_deltas(
    doc: &BlendingDocument,
    components: &Vec<BlendingComponent>,
    results: &Vec<BlendingResult>,
) -> (res: Option<Result<Vec<LedgerDelta>, DocumentError>>)
    requires
        all_fit(component_amounts(components@)),
        all_fit(result_amounts(results@)),
    ensures
        res is None <==> components@.len() > 0 && results@.len() > 0 && !blending_totals_defined(
            components@,
            results@,
        ),
        res matches Some(r) ==> blending_outcome(*doc, components@, results@, deltas_result_view(r)),
{
    if components.len() > 0 && results.len() > 0 {
        let used = amounts_used(components);
        let produced = amounts_produced(results);
        if total(&used).is_none() || total(&produced).is_none() {
            return None;
        }
    }
    Some(blending_execution_deltas(doc, components, results))
}

proof fn lemma_delta_total_concat(a: Seq<LedgerDelta>, b: Seq<LedgerDelta>)
    ensures
        delta_total(a + b) == delta_total(a) + delta_total(b),
    decreases b.len(),
{
    if b.len() == 0 {
        assert(a + b =~= a);
    } else {
        assert((a + b).drop_last() =~= a + b.drop_last());
        lemma_delta_total_concat(a, b.drop_last());
    }
}

proof fn lemma_blending_component_part_total(doc: BlendingDocument, components: Seq<BlendingComponent>, results: Seq<BlendingResult>)
    requires
        forall|i: int| 0 <= i < components.len() ==> #[trigger] components[i].amount_used.fits(),
    ensures
        delta_total(spec_blending_execution(doc, components, Seq::empty())) == -components_total(components),
    decreases components.len(),
{
    let whole = spec_blending_execution(doc, components, Seq::empty());
    if components.len() > 0 {
        let rest = components.drop_last();
        assert forall|i: int| 0 <= i < rest.len() implies #[trigger] rest[i].amount_used.fits() by {
            assert(rest[i] == components[i]);
        }
        lemma_blending_component_part_total(doc, rest, results);
        assert(whole.drop_last() =~= spec_blending_execution(doc, rest, Seq::empty()));
        assert(components.last() == components[components.len() - 1]);
        lemma_negated_value(components.last().amount_used);
    } else {
        assert(whole =~= Seq::<LedgerDelta>::empty());
    }
}

proof fn lemma_blending_result_part_total(doc: BlendingDocument, results: Seq<BlendingResult>)
    ensures
        delta_total(spec_blending_execution(doc, Seq::empty(), results)) == results_total(results),
    decreases results.len(),
{
    let whole = spec_blending_execution(doc, Seq::empty(), results);
    if results.len() > 0 {
        let rest = results.drop_last();
        lemma_blending_result_part_total(doc, rest);
        assert(whole.drop_last() =~= spec_blending_execution(doc, Seq::empty(), rest));
        assert(results.last() == results[results.len() - 1]);
    } else {
        assert(whole =~= Seq::<LedgerDelta>::empty());
    }
}

/// An accepted blending conserves quantity: what its components take out equals
/// what its results put in, so its ledger rows sum to zero.
pub proof fn law_blending_conserves_quantity(
    doc: BlendingDocument,
    components: Seq<BlendingComponent>,
    results: Seq<BlendingResult>,
)
    requires
        forall|i: int| 0 <= i < components.len() ==> #[trigger] components[i].amount_used.fits(),
        components_total(components) == results_total(results),
    ensures
        delta_total(spec_blending_execution(doc, components, results)) == 0,
{
    let whole = spec_blending_execution(doc, components, results);
    let a = spec_blending_execution(doc, components, Seq::empty());
    let b = spec_blending_execution(doc, Seq::empty(), results);
    assert(whole =~= a + b);
    lemma_delta_total_concat(a, b);
    lemma_blending_component_part_total(doc, components, results);
    lemma_blending_result_part_total(doc, results);
}

// ---------------------------------------------------------------------------
// Physical storage transfer
// ---------------------------------------------------------------------------

/// The ledger rows of executing a physical transfer: each amount leaves its
/// source storage and enters its target storage, owned by the document's
/// contractor.
pub open spec fn spec_physical_transfer_execution(doc: PhysicalStorageTransfer, items: Seq<PhysicalTransferItem>) -> Seq<
    LedgerDelta,
>
    decreases items.len(),
{
    if items.len() == 0 {
        Seq::empty()
    } else {
        let it = items.last();
        spec_physical_transfer_execution(doc, items.drop_last()) + seq![
            LedgerDelta {
                storage_id: it.from_storage_id,
                product_id: it.product_id,
                contractor_id: doc.contractor_id,
                quantity_delta: it.amount.spec_negated(),
                source_kind: LedgerEntrySourceKind::PhysicalStorageTransfer,
                source_id: doc.id,
                source_event: LedgerEntrySourceEvent::Execution,
                reverses_entry_id: None,
            },
            LedgerDelta {
                storage_id: it.to_storage_id,
                product_id: it.product_id,
                contractor_id: doc.contractor_id,
                quantity_delta: it.amount,
                source_kind: LedgerEntrySourceKind::PhysicalStorageTransfer,
                source_id: doc.id,
                source_event: LedgerEntrySourceEvent::Execution,
                reverses_entry_id: None,
            },
        ]
    }
}

/// The ledger rows of executing a physical storage transfer.
pub fn physical_transfer_execution_deltas(doc: &PhysicalStorageTransfer, items: &Vec<PhysicalTransferItem>) -> (res: Vec<
    LedgerDelta,
>)
    requires
        forall|i: int| 0 <= i < items@.len() ==> #[trigger] items@[i].amount.fits(),
    ensures
        res@ == spec_physical_transfer_execution(*doc, items@),
{
    let mut out: Vec<LedgerDelta> = Vec::new();
    let mut i: usize = 0;
    while i < items.len()
        invariant
            i <= items.len(),
            forall|i: int| 0 <= i < items@.len() ==> #[trigger] items@[i].amount.fits(),
            out@ =~= spec_physical_transfer_execution(*doc, items@.take(i as int)),
        decreases items.len() - i,
    {
        let item = &items[i];
        assert(items@.take(i + 1).drop_last() =~= items@.take(i as int));
        out.push(
            LedgerDelta {
                storage_id: item.from_storage_id,
                product_id: item.product_id,
                contractor_id: doc.contractor_id,
                quantity_delta: item.amount.negated(),
                source_kind: LedgerEntrySourceKind::PhysicalStorageTransfer,
                source_id: doc.id,
                source_event: LedgerEntrySourceEvent::Execution,
                reverses_entry_id: None,
            },
        );
        out.push(
            LedgerDelta {
                storage_id: item.to_storage_id,
                product_id: item.product_id,
                contractor_id: doc.contractor_id,
                quantity_delta: item.amount,
                source_kind: LedgerEntrySourceKind::PhysicalStorageTransfer,
                source_id: doc.id,
                source_event: LedgerEntrySourceEvent::Execution,
                reverses_entry_id: None,
            },
        );
        i = i + 1;
    }
    assert(items@.take(items.len() as int) =~= items@);
    out
}

proof fn lemma_delta_net_owned_concat(a: Seq<LedgerDelta>, b: Seq<LedgerDelta>, p: u128, c: u128)
    ensures
        delta_net_owned(a + b, p, c) == delta_net_owned(a, p, c) + delta_net_owned(b, p, c),
    decreases b.len(),
{
    if b.len() == 0 {
        assert(a + b =~= a);
    } else {
        assert((a + b).drop_last() =~= a + b.drop_last());
        lemma_delta_net_owned_concat(a, b.drop_last(), p, c);
    }
}

/// A physical transfer moves goods between storages without changing how much
/// of any product any contractor owns.
pub proof fn law_physical_transfer_conserves_ownership(
    doc: PhysicalStorageTransfer,
    items: Seq<PhysicalTransferItem>,
    product_id: u128,
    contractor_id: u128,
)
    requires
        forall|i: int| 0 <= i < items.len() ==> #[trigger] items[i].amount.fits(),
    ensures
        delta_net_owned(spec_physical_transfer_execution(doc, items), product_id, contractor_id) == 0,
    decreases items.len(),
{
    if items.len() > 0 {
        let rest = items.drop_last();
        assert forall|i: int| 0 <= i < rest.len() implies #[trigger] rest[i].amount.fits() by {
            assert(rest[i] == items[i]);
        }
        law_physical_transfer_conserves_ownership(doc, rest, product_id, contractor_id);
        let it = items.last();
        assert(it == items[items.len() - 1]);
        let pair = seq![
            LedgerDelta {
                storage_id: it.from_storage_id,
                product_id: it.product_id,
                contractor_id: doc.contractor_id,
                quantity_delta: it.amount.spec_negated(),
                source_kind: LedgerEntrySourceKind::PhysicalStorageTransfer,
                source_id: doc.id,
                source_event: LedgerEntrySourceEvent::Execution,
                reverses_entry_id: None,
            },
            LedgerDelta {
                storage_id: it.to_storage_id,
                product_id: it.product_id,
                contractor_id: doc.contractor_id,
                quantity_delta: it.amount,
                source_kind: LedgerEntrySourceKind::PhysicalStorageTransfer,
                source_id: doc.id,
                source_event: LedgerEntrySourceEvent::Execution,
                reverses_entry_id: None,
            },
        ];
        assert(spec_physical_transfer_execution(doc, items) == spec_physical_transfer_execution(doc, rest) + pair);
        lemma_delta_net_owned_concat(spec_physical_transfer_execution(doc, rest), pair, product_id, contractor_id);
        assert(pair.drop_last() =~= seq![pair[0]]);
        assert(seq![pair[0]].drop_last() =~= Seq::<LedgerDelta>::empty());
        lemma_negated_value(it.amount);
        assert(pair[0].quantity_delta.value() == -it.amount.value());
        assert(delta_net_owned(Seq::<LedgerDelta>::empty(), product_id, contractor_id) == 0);
        assert(delta_net_owned(seq![pair[0]], product_id, contractor_id) == if it.product_id == product_id && doc.contractor_id == contractor_id { -it.amount.value() } else { 0 });
        assert(delta_net_owned(pair, product_id, contractor_id) == 0);
    }
}


// ---------------------------------------------------------------------------
// Reversion through the ledger
// ---------------------------------------------------------------------------

/// Net quantity, in one dimension, of the execution rows among `rows` that
/// `ledger` does not reverse yet.
pub open spec fn pending_net(
    ledger: Seq<LedgerEntry>,
    rows: Seq<LedgerEntry>,
    kind: LedgerEntrySourceKind,
    source_id: u128,
    storage_id: u128,
    product_id: u128,
    contractor_id: u128,
) -> int
    decreases rows.len(),
{
    if rows.len() == 0 {
        0
    } else {
        let r = rows.last();
        pending_net(ledger, rows.drop_last(), kind, source_id, storage_id, product_id, contractor_id)
            + if needs_reversal(ledger, r, kind, source_id) && in_dimension(r, storage_id, product_id, contractor_id) {
            r.quantity_delta.value()
        } else {
            0
        }
    }
}

/// Net quantity, in one dimension, of all execution rows of a document.
pub open spec fn execution_net(
    rows: Seq<LedgerEntry>,
    kind: LedgerEntrySourceKind,
    source_id: u128,
    storage_id: u128,
    product_id: u128,
    contractor_id: u128,
) -> int
    decreases rows.len(),
{
    if rows.len() == 0 {
        0
    } else {
        let r = rows.last();
        execution_net(rows.drop_last(), kind, source_id, storage_id, product_id, contractor_id)
            + if is_execution_of(r, kind, source_id) && in_dimension(r, storage_id, product_id, contractor_id) {
            r.quantity_delta.value()
        } else {
            0
        }
    }
}

proof fn lemma_planned_net(
    ledger: Seq<LedgerEntry>,
    rows: Seq<LedgerEntry>,
    kind: LedgerEntrySourceKind,
    source_id: u128,
    s: u128,
    p: u128,
    c: u128,
)
    requires
        quantities_fit(rows),
    ensures
        delta_net(planned_reversals(ledger, rows, kind, source_id), s, p, c) == -pending_net(
            ledger,
            rows,
            kind,
            source_id,
            s,
            p,
            c,
        ),
    decreases rows.len(),
{
    if rows.len() > 0 {
        let rest = rows.drop_last();
        assert forall|k: int| 0 <= k < rest.len() implies rest[k].quantity_delta.fits() by {
            assert(rest[k] == rows[k]);
        }
        lemma_planned_net(ledger, rest, kind, source_id, s, p, c);
        lemma_negated_value(rows.last().quantity_delta);
        assert(rows.last() == rows[rows.len() - 1]);
        let prefix = planned_reversals(ledger, rest, kind, source_id);
        if needs_reversal(ledger, rows.last(), kind, source_id) {
            let r = rows.last();
            assert(planned_reversals(ledger, rows, kind, source_id).drop_last() =~= prefix);
        }
    }
}

proof fn lemma_pending_is_execution(
    ledger: Seq<LedgerEntry>,
    rows: Seq<LedgerEntry>,
    kind: LedgerEntrySourceKind,
    source_id: u128,
    s: u128,
    p: u128,
    c: u128,
)
    requires
        forall|k: int|
            0 <= k < rows.len() && is_execution_of(#[trigger] rows[k], kind, source_id) ==> !has_reversal(
                ledger,
                rows[k].id,
            ),
    ensures
        pending_net(ledger, rows, kind, source_id, s, p, c) == execution_net(rows, kind, source_id, s, p, c),
    decreases rows.len(),
{
    if rows.len() > 0 {
        let rest = rows.drop_last();
        assert forall|k: int|
            0 <= k < rest.len() && is_execution_of(#[trigger] rest[k], kind, source_id) implies !has_reversal(
            ledger,
            rest[k].id,
        ) by {
            assert(rest[k] == rows[k]);
        }
        lemma_pending_is_execution(ledger, rest, kind, source_id, s, p, c);
        assert(rows.last() == rows[rows.len() - 1]);
    }
}

/// Reverting a document appends, in every dimension, exactly the opposite of what
/// its not yet reversed execution rows added.
pub proof fn law_reversal_cancels_pending_executions(
    ledger: Seq<LedgerEntry>,
    kind: LedgerEntrySourceKind,
    source_id: u128,
    storage_id: u128,
    product_id: u128,
    contractor_id: u128,
)
    requires
        quantities_fit(ledger),
    ensures
        pending_net(ledger, ledger, kind, source_id, storage_id, product_id, contractor_id) + delta_net(
            planned_reversals(ledger, ledger, kind, source_id),
            storage_id,
            product_id,
            contractor_id,
        ) == 0,
{
    lemma_planned_net(ledger, ledger, kind, source_id, storage_id, product_id, contractor_id);
}

/// Reverting an executed document that was never reverted restores every
/// balance: its execution rows and the appended reversal rows sum to zero in
/// every dimension.
pub proof fn law_revert_restores_balances(
    ledger: Seq<LedgerEntry>,
    kind: LedgerEntrySourceKind,
    source_id: u128,
    storage_id: u128,
    product_id: u128,
    contractor_id: u128,
)
    requires
        quantities_fit(ledger),
        forall|k: int|
            0 <= k < ledger.len() && is_execution_of(#[trigger] ledger[k], kind, source_id) ==> !has_reversal(
                ledger,
                ledger[k].id,
            ),
    ensures
        execution_net(ledger, kind, source_id, storage_id, product_id, contractor_id) + delta_net(
            planned_reversals(ledger, ledger, kind, source_id),
            storage_id,
            product_id,
            contractor_id,
        ) == 0,
{
    lemma_planned_net(ledger, ledger, kind, source_id, storage_id, product_id, contractor_id);
    lemma_pending_is_execution(ledger, ledger, kind, source_id, storage_id, product_id, contractor_id);
}

proof fn lemma_planned_covers(
    ledger: Seq<LedgerEntry>,
    rows: Seq<LedgerEntry>,
    kind: LedgerEntrySourceKind,
    source_id: u128,
    k: int,
)
    requires
        0 <= k < rows.len(),
        needs_reversal(ledger, rows[k], kind, source_id),
    ensures
        exists|j: int|
            0 <= j < planned_reversals(ledger, rows, kind, source_id).len() && (#[trigger] planned_reversals(
                ledger,
                rows,
                kind,
                source_id,
            )[j]).reverses_entry_id == Some(rows[k].id),
    decreases rows.len(),
{
    let planned = planned_reversals(ledger, rows, kind, source_id);
    let rest = rows.drop_last();
    let prefix = planned_reversals(ledger, rest, kind, source_id);
    if k == rows.len() - 1 {
        assert(rows.last() == rows[k]);
        assert(planned[planned.len() - 1].reverses_entry_id == Some(rows[k].id));
    } else {
        assert(rest[k] == rows[k]);
        lemma_planned_covers(ledger, rest, kind, source_id, k);
        let j = choose|j: int| 0 <= j < prefix.len() && (#[trigger] prefix[j]).reverses_entry_id == Some(rest[k].id);
        assert(planned[j] == prefix[j]);
    }
}

proof fn lemma_planned_are_reversions(ledger: Seq<LedgerEntry>, rows: Seq<LedgerEntry>, kind: LedgerEntrySourceKind, source_id: u128)
    ensures
        forall|j: int|
            0 <= j < planned_reversals(ledger, rows, kind, source_id).len() ==> (#[trigger] planned_reversals(
                ledger,
                rows,
                kind,
                source_id,
            )[j]).source_event == LedgerEntrySourceEvent::Reversion,
    decreases rows.len(),
{
    if rows.len() > 0 {
        lemma_planned_are_reversions(ledger, rows.drop_last(), kind, source_id);
        let planned = planned_reversals(ledger, rows, kind, source_id);
        let prefix = planned_reversals(ledger, rows.drop_last(), kind, source_id);
        assert forall|j: int| 0 <= j < planned.len() implies (#[trigger] planned[j]).source_event
            == LedgerEntrySourceEvent::Reversion by {
            if j < prefix.len() {
                assert(planned[j] == prefix[j]);
            }
        }
    }
}

/// Whether ledger row `entry` is what appending `delta` writes: every field of the
/// delta is carried over; the id and the creation time are the store's.
pub open spec fn records_delta(entry: LedgerEntry, delta: LedgerDelta) -> bool {
    &&& entry.storage_id == delta.storage_id
    &&& entry.product_id == delta.product_id
    &&& entry.contractor_id == delta.contractor_id
    &&& entry.quantity_delta == delta.quantity_delta
    &&& entry.source_kind == delta.source_kind
    &&& entry.source_id == delta.source_id
    &&& entry.source_event == delta.source_event
    &&& entry.reverses_entry_id == delta.reverses_entry_id
}

/// The ledger rows that appending `deltas` adds, one per delta and in order.
pub open spec fn records(entries: Seq<LedgerEntry>, deltas: Seq<LedgerDelta>) -> bool {
    entries.len() == deltas.len() && forall|i: int|
        0 <= i < entries.len() ==> records_delta(#[trigger] entries[i], deltas[i])
}

/// Reverting twice changes nothing the second time: once the planned reversal
/// rows are in the ledger, no further reversal is planned.
pub proof fn law_revert_is_idempotent(
    ledger: Seq<LedgerEntry>,
    appended: Seq<LedgerEntry>,
    kind: LedgerEntrySourceKind,
    source_id: u128,
)
    requires
        records(appended, planned_reversals(ledger, ledger, kind, source_id)),
    ensures
        planned_reversals(ledger + appended, ledger + appended, kind, source_id).len() == 0,
{
    let whole = ledger + appended;
    let planned = planned_reversals(ledger, ledger, kind, source_id);
    lemma_planned_are_reversions(ledger, ledger, kind, source_id);
    assert forall|k: int| 0 <= k < whole.len() implies !needs_reversal(whole, #[trigger] whole[k], kind, source_id) by {
        if k >= ledger.len() {
            assert(whole[k] == appended[k - ledger.len()]);
            assert(planned[k - ledger.len()].source_event == LedgerEntrySourceEvent::Reversion);
        } else {
            assert(whole[k] == ledger[k]);
            if is_execution_of(ledger[k], kind, source_id) {
                if has_reversal(ledger, ledger[k].id) {
                    let m = choose|m: int| 0 <= m < ledger.len() && ledger[m].reverses_entry_id == Some(ledger[k].id);
                    assert(whole[m] == ledger[m]);
                } else {
                    lemma_planned_covers(ledger, ledger, kind, source_id, k);
                    let j = choose|j: int| 0 <= j < planned.len() && (#[trigger] planned[j]).reverses_entry_id == Some(ledger[k].id);
                    assert(whole[ledger.len() + j] == appended[j]);
                }
            }
        }
    }
    lemma_nothing_planned(whole, whole, kind, source_id);
}

proof fn lemma_nothing_planned(ledger: Seq<LedgerEntry>, rows: Seq<LedgerEntry>, kind: LedgerEntrySourceKind, source_id: u128)
    requires
        forall|k: int| 0 <= k < rows.len() ==> !needs_reversal(ledger, #[trigger] rows[k], kind, source_id),
    ensures
        planned_reversals(ledger, rows, kind, source_id).len() == 0,
    decreases rows.len(),
{
    if rows.len() > 0 {
        let rest = rows.drop_last();
        assert forall|k: int| 0 <= k < rest.len() implies !needs_reversal(ledger, #[trigger] rest[k], kind, source_id) by {
            assert(rest[k] == rows[k]);
        }
        lemma_nothing_planned(ledger, rest, kind, source_id);
        assert(rows.last() == rows[rows.len() - 1]);
    }
}


// ---------------------------------------------------------------------------
// The rows of a source document sum to zero once it is reverted
// ---------------------------------------------------------------------------

/// Whether a row was written for the given source document, by its execution or
/// by its reversion.
pub open spec fn is_row_of(row: LedgerEntry, kind: LedgerEntrySourceKind, source_id: u128) -> bool {
    row.source_kind == kind && row.source_id == source_id
}

/// Whether a row counts towards a sum over `dims`: the (storage, product,
/// contractor) dimension it names, or every dimension for none.
pub open spec fn in_scope(row: LedgerEntry, dims: Option<(u128, u128, u128)>) -> bool {
    match dims {
        Some((s, p, c)) => in_dimension(row, s, p, c),
        None => true,
    }
}

/// Whether a ledger delta counts towards a sum over `dims`.
pub open spec fn delta_in_scope(delta: LedgerDelta, dims: Option<(u128, u128, u128)>) -> bool {
    match dims {
        Some((s, p, c)) => delta.storage_id == s && delta.product_id == p && delta.contractor_id == c,
        None => true,
    }
}

/// Sum of the quantities of the deltas that count towards `dims`.
pub open spec fn delta_sum(deltas: Seq<LedgerDelta>, dims: Option<(u128, u128, u128)>) -> int
    decreases deltas.len(),
{
    if deltas.len() == 0 {
        0
    } else {
        delta_sum(deltas.drop_last(), dims) + if delta_in_scope(deltas.last(), dims) {
            deltas.last().quantity_delta.value()
        } else {
            0
        }
    }
}

/// Sum of the quantities of the rows of a source document, in one dimension or,
/// for none, over all dimensions.
pub open spec fn source_sum(
    rows: Seq<LedgerEntry>,
    kind: LedgerEntrySourceKind,
    source_id: u128,
    dims: Option<(u128, u128, u128)>,
) -> int
    decreases rows.len(),
{
    if rows.len() == 0 {
        0
    } else {
        let r = rows.last();
        source_sum(rows.drop_last(), kind, source_id, dims) + if is_row_of(r, kind, source_id) && in_scope(r, dims) {
            r.quantity_delta.value()
        } else {
            0
        }
    }
}

/// Sum of the quantities of the execution rows among `rows` that `ledger` does not
/// reverse yet, in one dimension or, for none, over all dimensions.
pub open spec fn pending_sum(
    ledger: Seq<LedgerEntry>,
    rows: Seq<LedgerEntry>,
    kind: LedgerEntrySourceKind,
    source_id: u128,
    dims: Option<(u128, u128, u128)>,
) -> int
    decreases rows.len(),
{
    if rows.len() == 0 {
        0
    } else {
        let r = rows.last();
        pending_sum(ledger, rows.drop_last(), kind, source_id, dims) + if needs_reversal(ledger, r, kind, source_id)
            && in_scope(r, dims) {
            r.quantity_delta.value()
        } else {
            0
        }
    }
}

/// Sum of the quantities of the rows among `rows` that still need reversal in
/// `ledger`, count towards `dims` and whose id is `target`.
spec fn pending_with_id(
    ledger: Seq<LedgerEntry>,
    rows: Seq<LedgerEntry>,
    kind: LedgerEntrySourceKind,
    source_id: u128,
    dims: Option<(u128, u128, u128)>,
    target: Option<u128>,
) -> int
    decreases rows.len(),
{
    if rows.len() == 0 {
        0
    } else {
        let r = rows.last();
        pending_with_id(ledger, rows.drop_last(), kind, source_id, dims, target) + if needs_reversal(
            ledger,
            r,
            kind,
            source_id,
        ) && in_scope(r, dims) && target == Some(r.id) {
            r.quantity_delta.value()
        } else {
            0
        }
    }
}

/// Whether `rev` cancels `row`: it reverses it, in the same dimension, with the
/// negated quantity.
pub open spec fn negates(rev: LedgerEntry, row: LedgerEntry) -> bool {
    &&& rev.reverses_entry_id == Some(row.id)
    &&& in_dimension(rev, row.storage_id, row.product_id, row.contractor_id)
    &&& rev.quantity_delta.value() == -row.quantity_delta.value()
}

/// No two rows of the ledger share an id.
#[verifier::opaque]
pub open spec fn ids_unique(ledger: Seq<LedgerEntry>) -> bool {
    forall|i: int, j: int| 0 <= i < j < ledger.len() ==> (#[trigger] ledger[i]).id != (#[trigger] ledger[j]).id
}

/// No row of the ledger is reversed by two rows.
#[verifier::opaque]
pub open spec fn reversed_at_most_once(ledger: Seq<LedgerEntry>) -> bool {
    forall|i: int, j: int|
        0 <= i < j < ledger.len() && (#[trigger] ledger[i]).reverses_entry_id is Some
            ==> ledger[i].reverses_entry_id != (#[trigger] ledger[j]).reverses_entry_id
}

/// The execution rows of a source reverse nothing.
#[verifier::opaque]
pub open spec fn executions_reverse_nothing(ledger: Seq<LedgerEntry>, kind: LedgerEntrySourceKind, source_id: u128) -> bool {
    forall|j: int|
        0 <= j < ledger.len() && is_execution_of(#[trigger] ledger[j], kind, source_id)
            ==> ledger[j].reverses_entry_id is None
}

/// Every reversion row of a source cancels an earlier execution row of the source.
#[verifier::opaque]
pub open spec fn reversions_cancel_earlier(ledger: Seq<LedgerEntry>, kind: LedgerEntrySourceKind, source_id: u128) -> bool {
    forall|j: int|
        0 <= j < ledger.len() && is_row_of(#[trigger] ledger[j], kind, source_id) && ledger[j].source_event
            == LedgerEntrySourceEvent::Reversion ==> exists|i: int|
            0 <= i < j && is_execution_of(ledger[i], kind, source_id) && #[trigger] negates(ledger[j], ledger[i])
}

/// Only reversion rows of a source reverse execution rows of the source.
#[verifier::opaque]
pub open spec fn only_own_reversions(ledger: Seq<LedgerEntry>, kind: LedgerEntrySourceKind, source_id: u128) -> bool {
    forall|i: int, j: int|
        0 <= i < ledger.len() && 0 <= j < ledger.len() && is_execution_of(#[trigger] ledger[i], kind, source_id)
            && (#[trigger] ledger[j]).reverses_entry_id == Some(ledger[i].id) ==> is_row_of(ledger[j], kind, source_id)
            && ledger[j].source_event == LedgerEntrySourceEvent::Reversion
}

/// A ledger in which the rows of a source document are as execution and reversion
/// write them: row ids are unique; no row is reversed twice; an execution row of
/// the source reverses nothing; every reversion row of the source reverses an
/// earlier execution row of the source, in its dimension and with its negated
/// quantity; and only
/// reversion rows of the source reverse execution rows of the source.
pub open spec fn reversals_exact(ledger: Seq<LedgerEntry>, kind: LedgerEntrySourceKind, source_id: u128) -> bool {
    &&& ids_unique(ledger)
    &&& reversed_at_most_once(ledger)
    &&& executions_reverse_nothing(ledger, kind, source_id)
    &&& reversions_cancel_earlier(ledger, kind, source_id)
    &&& only_own_reversions(ledger, kind, source_id)
}

proof fn lemma_has_reversal_push(ledger: Seq<LedgerEntry>, x: LedgerEntry, id: u128)
    ensures
        has_reversal(ledger.push(x), id) == (has_reversal(ledger, id) || x.reverses_entry_id == Some(id)),
{
    let whole = ledger.push(x);
    if has_reversal(ledger, id) {
        let k = choose|k: int| 0 <= k < ledger.len() && ledger[k].reverses_entry_id == Some(id);
        assert(whole[k] == ledger[k]);
    }
    if x.reverses_entry_id == Some(id) {
        assert(whole[ledger.len() as int] == x);
    }
    if has_reversal(whole, id) {
        let k = choose|k: int| 0 <= k < whole.len() && whole[k].reverses_entry_id == Some(id);
        if k < ledger.len() {
            assert(whole[k] == ledger[k]);
        }
    }
}

/// Appending `x` to the ledger settles exactly the pending rows whose id `x` reverses.
proof fn lemma_pending_after_push(
    ledger: Seq<LedgerEntry>,
    x: LedgerEntry,
    rows: Seq<LedgerEntry>,
    kind: LedgerEntrySourceKind,
    source_id: u128,
    dims: Option<(u128, u128, u128)>,
)
    ensures
        pending_sum(ledger, rows, kind, source_id, dims) == pending_sum(ledger.push(x), rows, kind, source_id, dims)
            + pending_with_id(ledger, rows, kind, source_id, dims, x.reverses_entry_id),
    decreases rows.len(),
{
    if rows.len() > 0 {
        lemma_pending_after_push(ledger, x, rows.drop_last(), kind, source_id, dims);
        lemma_has_reversal_push(ledger, x, rows.last().id);
    }
}

proof fn lemma_pending_with_id_none(
    ledger: Seq<LedgerEntry>,
    rows: Seq<LedgerEntry>,
    kind: LedgerEntrySourceKind,
    source_id: u128,
    dims: Option<(u128, u128, u128)>,
    target: Option<u128>,
)
    requires
        forall|k: int|
            0 <= k < rows.len() && needs_reversal(ledger, #[trigger] rows[k], kind, source_id) ==> target != Some(
                rows[k].id,
            ),
    ensures
        pending_with_id(ledger, rows, kind, source_id, dims, target) == 0,
    decreases rows.len(),
{
    if rows.len() > 0 {
        let rest = rows.drop_last();
        assert forall|k: int|
            0 <= k < rest.len() && needs_reversal(ledger, #[trigger] rest[k], kind, source_id) implies target
            != Some(rest[k].id) by {
            assert(rest[k] == rows[k]);
        }
        lemma_pending_with_id_none(ledger, rest, kind, source_id, dims, target);
        assert(rows.last() == rows[rows.len() - 1]);
    }
}

proof fn lemma_pending_with_id_one(
    ledger: Seq<LedgerEntry>,
    rows: Seq<LedgerEntry>,
    kind: LedgerEntrySourceKind,
    source_id: u128,
    dims: Option<(u128, u128, u128)>,
    i: int,
)
    requires
        0 <= i < rows.len(),
        forall|a: int, b: int| 0 <= a < b < rows.len() ==> (#[trigger] rows[a]).id != (#[trigger] rows[b]).id,
        needs_reversal(ledger, rows[i], kind, source_id),
    ensures
        pending_with_id(ledger, rows, kind, source_id, dims, Some(rows[i].id)) == if in_scope(rows[i], dims) {
            rows[i].quantity_delta.value()
        } else {
            0
        },
    decreases rows.len(),
{
    let rest = rows.drop_last();
    let n = rows.len() - 1;
    assert(rows.last() == rows[n]);
    if i == n {
        assert forall|k: int|
            0 <= k < rest.len() && needs_reversal(ledger, #[trigger] rest[k], kind, source_id) implies Some(
            rows[i].id,
        ) != Some(rest[k].id) by {
            assert(rest[k] == rows[k]);
        }
        lemma_pending_with_id_none(ledger, rest, kind, source_id, dims, Some(rows[i].id));
    } else {
        assert(rest[i] == rows[i]);
        assert forall|a: int, b: int| 0 <= a < b < rest.len() implies (#[trigger] rest[a]).id
            != (#[trigger] rest[b]).id by {
            assert(rest[a] == rows[a]);
            assert(rest[b] == rows[b]);
        }
        lemma_pending_with_id_one(ledger, rest, kind, source_id, dims, i);
        assert(rows[i].id != rows[n].id);
    }
}

proof fn lemma_reversals_exact_prefix(ledger: Seq<LedgerEntry>, kind: LedgerEntrySourceKind, source_id: u128)
    requires
        ledger.len() > 0,
        reversals_exact(ledger, kind, source_id),
    ensures
        reversals_exact(ledger.drop_last(), kind, source_id),
{
    let p = ledger.drop_last();
    assert(ids_unique(p)) by {
        reveal(ids_unique);
        assert forall|i: int, j: int| 0 <= i < j < p.len() implies (#[trigger] p[i]).id != (#[trigger] p[j]).id by {
            assert(p[i] == ledger[i] && p[j] == ledger[j]);
        }
    }
    assert(reversed_at_most_once(p)) by {
        reveal(reversed_at_most_once);
        assert forall|i: int, j: int|
            0 <= i < j < p.len() && (#[trigger] p[i]).reverses_entry_id is Some implies p[i].reverses_entry_id
            != (#[trigger] p[j]).reverses_entry_id by {
            assert(p[i] == ledger[i] && p[j] == ledger[j]);
        }
    }
    assert(executions_reverse_nothing(p, kind, source_id)) by {
        reveal(executions_reverse_nothing);
        assert forall|j: int| 0 <= j < p.len() && is_execution_of(#[trigger] p[j], kind, source_id) implies p[j].reverses_entry_id is None by {
            assert(p[j] == ledger[j]);
        }
    }
    assert(reversions_cancel_earlier(p, kind, source_id)) by {
        reveal(reversions_cancel_earlier);
        assert forall|j: int|
            0 <= j < p.len() && is_row_of(#[trigger] p[j], kind, source_id) && p[j].source_event
                == LedgerEntrySourceEvent::Reversion implies exists|i: int|
            0 <= i < j && is_execution_of(p[i], kind, source_id) && #[trigger] negates(p[j], p[i]) by {
            assert(p[j] == ledger[j]);
            let i = choose|i: int| 0 <= i < j && is_execution_of(ledger[i], kind, source_id) && #[trigger] negates(ledger[j], ledger[i]);
            assert(p[i] == ledger[i]);
            assert(negates(p[j], p[i]));
        }
    }
    assert(only_own_reversions(p, kind, source_id)) by {
        reveal(only_own_reversions);
        assert forall|i: int, j: int|
            0 <= i < p.len() && 0 <= j < p.len() && is_execution_of(#[trigger] p[i], kind, source_id)
                && (#[trigger] p[j]).reverses_entry_id == Some(p[i].id) implies is_row_of(p[j], kind, source_id)
            && p[j].source_event == LedgerEntrySourceEvent::Reversion by {
            assert(p[i] == ledger[i] && p[j] == ledger[j]);
        }
    }
}

/// No earlier row reverses the last row when it is an execution row of the source.
proof fn lemma_last_execution_not_reversed(ledger: Seq<LedgerEntry>, kind: LedgerEntrySourceKind, source_id: u128)
    requires
        ledger.len() > 0,
        reversals_exact(ledger, kind, source_id),
        is_execution_of(ledger.last(), kind, source_id),
    ensures
        !has_reversal(ledger, ledger.last().id),
{
    let n = ledger.len() - 1;
    assert(ledger.last() == ledger[n]);
    if has_reversal(ledger, ledger[n].id) {
        let m = choose|m: int| 0 <= m < ledger.len() && ledger[m].reverses_entry_id == Some(ledger[n].id);
        reveal(executions_reverse_nothing);
        reveal(only_own_reversions);
        assert(is_execution_of(ledger[n], kind, source_id));
        assert(m != n);
        assert(is_row_of(ledger[m], kind, source_id) && ledger[m].source_event == LedgerEntrySourceEvent::Reversion);
        reveal(reversions_cancel_earlier);
        let i = choose|i: int| 0 <= i < m && is_execution_of(ledger[i], kind, source_id) && #[trigger] negates(ledger[m], ledger[i]);
        reveal(ids_unique);
        assert(ledger[i].id != ledger[n].id);
    }
}

/// The last row, when it is a reversion row of the source, cancels a row of the
/// rest that still needs reversal there.
proof fn lemma_last_reversion_cancels_pending(ledger: Seq<LedgerEntry>, kind: LedgerEntrySourceKind, source_id: u128) -> (i: int)
    requires
        ledger.len() > 0,
        reversals_exact(ledger, kind, source_id),
        is_row_of(ledger.last(), kind, source_id),
        ledger.last().source_event == LedgerEntrySourceEvent::Reversion,
    ensures
        0 <= i < ledger.len() - 1,
        negates(ledger.last(), ledger[i]),
        needs_reversal(ledger.drop_last(), ledger.drop_last()[i], kind, source_id),
{
    let n = ledger.len() - 1;
    let p = ledger.drop_last();
    assert(ledger.last() == ledger[n]);
    reveal(reversions_cancel_earlier);
    let i = choose|i: int| 0 <= i < n && is_execution_of(ledger[i], kind, source_id) && #[trigger] negates(ledger[n], ledger[i]);
    assert(p[i] == ledger[i]);
    if has_reversal(p, ledger[i].id) {
        let m = choose|m: int| 0 <= m < p.len() && p[m].reverses_entry_id == Some(ledger[i].id);
        assert(p[m] == ledger[m]);
        reveal(reversed_at_most_once);
        assert(ledger[m].reverses_entry_id != ledger[n].reverses_entry_id);
    }
    i
}

/// The last row, when it is no row of the source, reverses no execution row of
/// the source.
proof fn lemma_foreign_last_reverses_no_pending(ledger: Seq<LedgerEntry>, kind: LedgerEntrySourceKind, source_id: u128)
    requires
        ledger.len() > 0,
        reversals_exact(ledger, kind, source_id),
        !is_row_of(ledger.last(), kind, source_id),
    ensures
        forall|k: int|
            0 <= k < ledger.len() - 1 && needs_reversal(ledger.drop_last(), #[trigger] ledger.drop_last()[k], kind, source_id)
                ==> ledger.last().reverses_entry_id != Some(ledger.drop_last()[k].id),
{
    let n = ledger.len() - 1;
    let p = ledger.drop_last();
    assert(ledger.last() == ledger[n]);
    assert forall|k: int|
        0 <= k < n && needs_reversal(p, #[trigger] p[k], kind, source_id) implies ledger.last().reverses_entry_id
        != Some(p[k].id) by {
        assert(p[k] == ledger[k]);
        if ledger[n].reverses_entry_id == Some(ledger[k].id) {
            reveal(only_own_reversions);
            assert(is_execution_of(ledger[k], kind, source_id));
        }
    }
}

/// In a ledger whose reversal rows are exact, the rows of a source sum to what its
/// execution rows that are not reversed yet sum to.
proof fn lemma_source_sum_is_pending(
    ledger: Seq<LedgerEntry>,
    kind: LedgerEntrySourceKind,
    source_id: u128,
    dims: Option<(u128, u128, u128)>,
)
    requires
        reversals_exact(ledger, kind, source_id),
    ensures
        source_sum(ledger, kind, source_id, dims) == pending_sum(ledger, ledger, kind, source_id, dims),
    decreases ledger.len(),
{
    if ledger.len() > 0 {
        let p = ledger.drop_last();
        let x = ledger.last();
        assert(ledger == p.push(x));
        lemma_reversals_exact_prefix(ledger, kind, source_id);
        lemma_source_sum_is_pending(p, kind, source_id, dims);
        lemma_pending_after_push(p, x, p, kind, source_id, dims);
        lemma_has_reversal_push(p, x, x.id);
        if is_execution_of(x, kind, source_id) {
            lemma_last_execution_not_reversed(ledger, kind, source_id);
            assert(x.reverses_entry_id is None) by {
                reveal(executions_reverse_nothing);
                assert(x == ledger[ledger.len() - 1]);
            }
            lemma_pending_with_id_none(p, p, kind, source_id, dims, None);
        } else if is_row_of(x, kind, source_id) {
            assert(x.source_event == LedgerEntrySourceEvent::Reversion);
            let i = lemma_last_reversion_cancels_pending(ledger, kind, source_id);
            assert(ids_unique(p));
            assert(forall|a: int, b: int| 0 <= a < b < p.len() ==> (#[trigger] p[a]).id != (#[trigger] p[b]).id) by {
                reveal(ids_unique);
            }
            lemma_pending_with_id_one(p, p, kind, source_id, dims, i);
            assert(p[i] == ledger[i]);
        } else {
            lemma_foreign_last_reverses_no_pending(ledger, kind, source_id);
            lemma_pending_with_id_none(p, p, kind, source_id, dims, x.reverses_entry_id);
        }
    }
}

proof fn lemma_planned_sum(
    ledger: Seq<LedgerEntry>,
    rows: Seq<LedgerEntry>,
    kind: LedgerEntrySourceKind,
    source_id: u128,
    dims: Option<(u128, u128, u128)>,
)
    requires
        quantities_fit(rows),
    ensures
        delta_sum(planned_reversals(ledger, rows, kind, source_id), dims) == -pending_sum(
            ledger,
            rows,
            kind,
            source_id,
            dims,
        ),
        forall|j: int|
            0 <= j < planned_reversals(ledger, rows, kind, source_id).len() ==> (#[trigger] planned_reversals(
                ledger,
                rows,
                kind,
                source_id,
            )[j]).source_kind == kind && planned_reversals(ledger, rows, kind, source_id)[j].source_id == source_id,
    decreases rows.len(),
{
    if rows.len() > 0 {
        let rest = rows.drop_last();
        assert forall|k: int| 0 <= k < rest.len() implies rest[k].quantity_delta.fits() by {
            assert(rest[k] == rows[k]);
        }
        lemma_planned_sum(ledger, rest, kind, source_id, dims);
        lemma_negated_value(rows.last().quantity_delta);
        assert(rows.last() == rows[rows.len() - 1]);
        let planned = planned_reversals(ledger, rows, kind, source_id);
        let prefix = planned_reversals(ledger, rest, kind, source_id);
        if needs_reversal(ledger, rows.last(), kind, source_id) {
            assert(planned.drop_last() =~= prefix);
        }
        assert forall|j: int| 0 <= j < planned.len() implies (#[trigger] planned[j]).source_kind == kind
            && planned[j].source_id == source_id by {
            if j < prefix.len() {
                assert(planned[j] == prefix[j]);
            }
        }
    }
}

proof fn lemma_source_sum_concat(
    a: Seq<LedgerEntry>,
    b: Seq<LedgerEntry>,
    kind: LedgerEntrySourceKind,
    source_id: u128,
    dims: Option<(u128, u128, u128)>,
)
    ensures
        source_sum(a + b, kind, source_id, dims) == source_sum(a, kind, source_id, dims) + source_sum(
            b,
            kind,
            source_id,
            dims,
        ),
    decreases b.len(),
{
    if b.len() == 0 {
        assert(a + b =~= a);
    } else {
        assert((a + b).drop_last() =~= a + b.drop_last());
        lemma_source_sum_concat(a, b.drop_last(), kind, source_id, dims);
    }
}

/// Rows that record deltas of a source sum to what the deltas sum to.
proof fn lemma_recorded_sum(
    entries: Seq<LedgerEntry>,
    deltas: Seq<LedgerDelta>,
    kind: LedgerEntrySourceKind,
    source_id: u128,
    dims: Option<(u128, u128, u128)>,
)
    requires
        records(entries, deltas),
        forall|j: int| 0 <= j < deltas.len() ==> (#[trigger] deltas[j]).source_kind == kind && deltas[j].source_id
            == source_id,
    ensures
        source_sum(entries, kind, source_id, dims) == delta_sum(deltas, dims),
    decreases entries.len(),
{
    if entries.len() > 0 {
        let n = entries.len() - 1;
        assert(records(entries.drop_last(), deltas.drop_last())) by {
            assert forall|i: int| 0 <= i < n implies records_delta(
                #[trigger] entries.drop_last()[i],
                deltas.drop_last()[i],
            ) by {
                assert(records_delta(entries[i], deltas[i]));
            }
        }
        assert forall|j: int| 0 <= j < n implies (#[trigger] deltas.drop_last()[j]).source_kind == kind
            && deltas.drop_last()[j].source_id == source_id by {
            assert(deltas.drop_last()[j] == deltas[j]);
        }
        lemma_recorded_sum(entries.drop_last(), deltas.drop_last(), kind, source_id, dims);
        assert(records_delta(entries[n], deltas[n]));
        assert(deltas[n].source_kind == kind);
    }
}

/// Reverting a document leaves its ledger rows summing to zero, in every
/// dimension and over all dimensions together, however often it was executed and
/// reverted before, provided the earlier reversal rows are exact: the reversal
/// rows appended cancel exactly what the document's rows still add up to.
pub proof fn law_revert_zeroes_source(
    ledger: Seq<LedgerEntry>,
    appended: Seq<LedgerEntry>,
    kind: LedgerEntrySourceKind,
    source_id: u128,
    dims: Option<(u128, u128, u128)>,
)
    requires
        quantities_fit(ledger),
        reversals_exact(ledger, kind, source_id),
        records(appended, planned_reversals(ledger, ledger, kind, source_id)),
    ensures
        source_sum(ledger, kind, source_id, dims) + delta_sum(planned_reversals(ledger, ledger, kind, source_id), dims)
            == 0,
        source_sum(ledger + appended, kind, source_id, dims) == 0,
{
    let planned = planned_reversals(ledger, ledger, kind, source_id);
    lemma_source_sum_is_pending(ledger, kind, source_id, dims);
    lemma_planned_sum(ledger, ledger, kind, source_id, dims);
    lemma_source_sum_concat(ledger, appended, kind, source_id, dims);
    lemma_recorded_sum(appended, planned, kind, source_id, dims);
}

// ---------------------------------------------------------------------------
// Execution and reversion keep the reversal rows exact
// ---------------------------------------------------------------------------

/// Each planned reversal cancels a row that still needs reversal, and no two
/// planned reversals reverse the same row.
proof fn lemma_planned_shape(
    ledger: Seq<LedgerEntry>,
    rows: Seq<LedgerEntry>,
    kind: LedgerEntrySourceKind,
    source_id: u128,
)
    requires
        forall|a: int, b: int| 0 <= a < b < rows.len() ==> (#[trigger] rows[a]).id != (#[trigger] rows[b]).id,
    ensures
        forall|j: int|
            0 <= j < planned_reversals(ledger, rows, kind, source_id).len() ==> exists|i: int|
                0 <= i < rows.len() && needs_reversal(ledger, rows[i], kind, source_id) && #[trigger] planned_reversals(
                    ledger,
                    rows,
                    kind,
                    source_id,
                )[j] == reversal_of(#[trigger] rows[i]),
        forall|j1: int, j2: int|
            0 <= j1 < j2 < planned_reversals(ledger, rows, kind, source_id).len() ==> (#[trigger] planned_reversals(
                ledger,
                rows,
                kind,
                source_id,
            )[j1]).reverses_entry_id != (#[trigger] planned_reversals(ledger, rows, kind, source_id)[j2]).reverses_entry_id,
    decreases rows.len(),
{
    if rows.len() > 0 {
        let rest = rows.drop_last();
        let n = rows.len() - 1;
        assert forall|a: int, b: int| 0 <= a < b < rest.len() implies (#[trigger] rest[a]).id
            != (#[trigger] rest[b]).id by {
            assert(rest[a] == rows[a] && rest[b] == rows[b]);
        }
        lemma_planned_shape(ledger, rest, kind, source_id);
        let planned = planned_reversals(ledger, rows, kind, source_id);
        let prefix = planned_reversals(ledger, rest, kind, source_id);
        assert(rows.last() == rows[n]);
        assert forall|j: int| 0 <= j < planned.len() implies exists|i: int|
            0 <= i < rows.len() && needs_reversal(ledger, rows[i], kind, source_id) && #[trigger] planned[j]
                == reversal_of(#[trigger] rows[i]) by {
            if j < prefix.len() {
                assert(planned[j] == prefix[j]);
                let i = choose|i: int|
                    0 <= i < rest.len() && needs_reversal(ledger, rest[i], kind, source_id) && #[trigger] prefix[j]
                        == reversal_of(#[trigger] rest[i]);
                assert(rest[i] == rows[i]);
            } else {
                assert(planned[j] == reversal_of(rows[n]));
            }
        }
        assert forall|j1: int, j2: int| 0 <= j1 < j2 < planned.len() implies (#[trigger] planned[j1]).reverses_entry_id
            != (#[trigger] planned[j2]).reverses_entry_id by {
            assert(planned[j1] == prefix[j1]);
            if j2 < prefix.len() {
                assert(planned[j2] == prefix[j2]);
            } else {
                let i = choose|i: int|
                    0 <= i < rest.len() && needs_reversal(ledger, rest[i], kind, source_id) && #[trigger] prefix[j1]
                        == reversal_of(#[trigger] rest[i]);
                assert(rest[i] == rows[i]);
                assert(rows[i].id != rows[n].id);
            }
        }
    }
}

/// Rows new to a ledger: their ids are distinct from each other, from the
/// ledger's and from every id that a row of the ledger reverses.
pub open spec fn fresh_ids(ledger: Seq<LedgerEntry>, appended: Seq<LedgerEntry>) -> bool {
    &&& forall|a: int, b: int|
        0 <= a < b < appended.len() ==> (#[trigger] appended[a]).id != (#[trigger] appended[b]).id
    &&& forall|k: int, j: int|
        0 <= k < ledger.len() && 0 <= j < appended.len() ==> (#[trigger] ledger[k]).id != (#[trigger] appended[j]).id
            && ledger[k].reverses_entry_id != Some(appended[j].id)
}

/// An empty ledger's reversal rows are exact, for every source.
pub proof fn law_empty_ledger_is_exact(kind: LedgerEntrySourceKind, source_id: u128)
    ensures
        reversals_exact(Seq::<LedgerEntry>::empty(), kind, source_id),
{
    reveal(ids_unique);
    reveal(reversed_at_most_once);
    reveal(executions_reverse_nothing);
    reveal(reversions_cancel_earlier);
    reveal(only_own_reversions);
}

/// Reverting any document (of source `rkind`, `rid`) keeps the reversal rows of
/// every source exact, when the store gives the appended rows fresh ids.
pub proof fn law_revert_keeps_reversals_exact(
    ledger: Seq<LedgerEntry>,
    appended: Seq<LedgerEntry>,
    rkind: LedgerEntrySourceKind,
    rid: u128,
    kind: LedgerEntrySourceKind,
    source_id: u128,
)
    requires
        quantities_fit(ledger),
        reversals_exact(ledger, kind, source_id),
        records(appended, planned_reversals(ledger, ledger, rkind, rid)),
        fresh_ids(ledger, appended),
    ensures
        reversals_exact(ledger + appended, kind, source_id),
{
    let w = ledger + appended;
    let n = ledger.len() as int;
    let planned = planned_reversals(ledger, ledger, rkind, rid);
    assert(forall|a: int, b: int| 0 <= a < b < ledger.len() ==> (#[trigger] ledger[a]).id != (#[trigger] ledger[b]).id) by {
        reveal(ids_unique);
    }
    lemma_planned_shape(ledger, ledger, rkind, rid);
    assert forall|k: int| 0 <= k < ledger.len() implies #[trigger] w[k] == ledger[k] by {}
    assert forall|j: int| 0 <= j < appended.len() implies #[trigger] w[n + j] == appended[j] by {}
    // What each appended row is: the reversal of a row of the ledger that still needed one.
    assert forall|j: int| #![trigger appended[j]] 0 <= j < appended.len() implies exists|i: int|
        0 <= i < n && needs_reversal(ledger, ledger[i], rkind, rid) && #[trigger] records_delta(
            appended[j],
            reversal_of(#[trigger] ledger[i]),
        ) by {
        assert(records_delta(appended[j], planned[j]));
        let i = choose|i: int|
            0 <= i < ledger.len() && needs_reversal(ledger, ledger[i], rkind, rid) && #[trigger] planned[j]
                == reversal_of(#[trigger] ledger[i]);
        assert(records_delta(appended[j], reversal_of(ledger[i])));
    }
    assert(ids_unique(w)) by {
        reveal(ids_unique);
        assert forall|a: int, b: int| 0 <= a < b < w.len() implies (#[trigger] w[a]).id != (#[trigger] w[b]).id by {
            if b < n {
            } else if a < n {
                assert(w[b] == appended[b - n]);
            } else {
                assert(w[a] == appended[a - n] && w[b] == appended[b - n]);
            }
        }
    }
    assert(reversed_at_most_once(w)) by {
        reveal(reversed_at_most_once);
        assert forall|a: int, b: int|
            0 <= a < b < w.len() && (#[trigger] w[a]).reverses_entry_id is Some implies w[a].reverses_entry_id
            != (#[trigger] w[b]).reverses_entry_id by {
            if b < n {
            } else {
                let jb = b - n;
                assert(w[b] == appended[jb]);
                assert(records_delta(appended[jb], planned[jb]));
                if a < n {
                    let i = choose|i: int|
                        0 <= i < n && needs_reversal(ledger, ledger[i], rkind, rid) && #[trigger] records_delta(
                            appended[jb],
                            reversal_of(#[trigger] ledger[i]),
                        );
                    if w[a].reverses_entry_id == w[b].reverses_entry_id {
                        assert(ledger[a].reverses_entry_id == Some(ledger[i].id));
                        assert(has_reversal(ledger, ledger[i].id));
                    }
                } else {
                    let ja = a - n;
                    assert(w[a] == appended[ja]);
                    assert(records_delta(appended[ja], planned[ja]));
                }
            }
        }
    }
    assert(executions_reverse_nothing(w, kind, source_id)) by {
        reveal(executions_reverse_nothing);
        assert forall|j: int| 0 <= j < w.len() && is_execution_of(#[trigger] w[j], kind, source_id) implies w[j].reverses_entry_id is None by {
            if j >= n {
                let i = choose|i: int|
                    0 <= i < n && needs_reversal(ledger, ledger[i], rkind, rid) && #[trigger] records_delta(
                        appended[j - n],
                        reversal_of(#[trigger] ledger[i]),
                    );
            }
        }
    }
    assert(reversions_cancel_earlier(w, kind, source_id)) by {
        reveal(reversions_cancel_earlier);
        assert forall|j: int|
            0 <= j < w.len() && is_row_of(#[trigger] w[j], kind, source_id) && w[j].source_event
                == LedgerEntrySourceEvent::Reversion implies exists|i: int|
            0 <= i < j && is_execution_of(w[i], kind, source_id) && #[trigger] negates(w[j], w[i]) by {
            if j < n {
                let i = choose|i: int| 0 <= i < j && is_execution_of(ledger[i], kind, source_id) && #[trigger] negates(ledger[j], ledger[i]);
                assert(negates(w[j], w[i]));
            } else {
                let i = choose|i: int|
                    0 <= i < n && needs_reversal(ledger, ledger[i], rkind, rid) && #[trigger] records_delta(
                        appended[j - n],
                        reversal_of(#[trigger] ledger[i]),
                    );
                assert(ledger[i].quantity_delta.fits());
                lemma_negated_value(ledger[i].quantity_delta);
                assert(negates(w[j], w[i]));
            }
        }
    }
    assert(only_own_reversions(w, kind, source_id)) by {
        reveal(only_own_reversions);
        assert forall|a: int, b: int|
            0 <= a < w.len() && 0 <= b < w.len() && is_execution_of(#[trigger] w[a], kind, source_id)
                && (#[trigger] w[b]).reverses_entry_id == Some(w[a].id) implies is_row_of(w[b], kind, source_id)
            && w[b].source_event == LedgerEntrySourceEvent::Reversion by {
            if a >= n {
                let i = choose|i: int|
                    0 <= i < n && needs_reversal(ledger, ledger[i], rkind, rid) && #[trigger] records_delta(
                        appended[a - n],
                        reversal_of(#[trigger] ledger[i]),
                    );
            } else if b >= n {
                let i = choose|i: int|
                    0 <= i < n && needs_reversal(ledger, ledger[i], rkind, rid) && #[trigger] records_delta(
                        appended[b - n],
                        reversal_of(#[trigger] ledger[i]),
                    );
                // The reversed row is `ledger[i]`, an execution row of the reverted
                // source; ids are unique, so it is `ledger[a]`.
                assert(ledger[i].id == ledger[a].id);
                if i != a {
                    reveal(ids_unique);
                    if i < a {
                        assert(ledger[i].id != ledger[a].id);
                    } else {
                        assert(ledger[a].id != ledger[i].id);
                    }
                }
            }
        }
    }
}

/// Appending rows that reverse nothing, none of them a reversion row of the
/// source (such as the execution rows of any document), keeps the reversal rows
/// of the source exact, when the rows get fresh ids.
pub proof fn law_execute_keeps_reversals_exact(
    ledger: Seq<LedgerEntry>,
    appended: Seq<LedgerEntry>,
    kind: LedgerEntrySourceKind,
    source_id: u128,
)
    requires
        reversals_exact(ledger, kind, source_id),
        forall|j: int|
            0 <= j < appended.len() ==> (#[trigger] appended[j]).reverses_entry_id is None && (is_row_of(
                appended[j],
                kind,
                source_id,
            ) ==> appended[j].source_event == LedgerEntrySourceEvent::Execution),
        fresh_ids(ledger, appended),
    ensures
        reversals_exact(ledger + appended, kind, source_id),
{
    let w = ledger + appended;
    let n = ledger.len() as int;
    assert forall|k: int| 0 <= k < ledger.len() implies #[trigger] w[k] == ledger[k] by {}
    assert forall|j: int| 0 <= j < appended.len() implies #[trigger] w[n + j] == appended[j] by {}
    assert(ids_unique(w)) by {
        reveal(ids_unique);
        assert forall|a: int, b: int| 0 <= a < b < w.len() implies (#[trigger] w[a]).id != (#[trigger] w[b]).id by {
            if b < n {
            } else if a < n {
                assert(w[b] == appended[b - n]);
            } else {
                assert(w[a] == appended[a - n] && w[b] == appended[b - n]);
            }
        }
    }
    assert(reversed_at_most_once(w)) by {
        reveal(reversed_at_most_once);
        assert forall|a: int, b: int|
            0 <= a < b < w.len() && (#[trigger] w[a]).reverses_entry_id is Some implies w[a].reverses_entry_id
            != (#[trigger] w[b]).reverses_entry_id by {
            if b >= n {
                assert(w[b] == appended[b - n]);
                if a >= n {
                    assert(w[a] == appended[a - n]);
                }
            }
        }
    }
    assert(executions_reverse_nothing(w, kind, source_id)) by {
        reveal(executions_reverse_nothing);
        assert forall|j: int| 0 <= j < w.len() && is_execution_of(#[trigger] w[j], kind, source_id) implies w[j].reverses_entry_id is None by {
            if j >= n {
                assert(w[j] == appended[j - n]);
            }
        }
    }
    assert(reversions_cancel_earlier(w, kind, source_id)) by {
        reveal(reversions_cancel_earlier);
        assert forall|j: int|
            0 <= j < w.len() && is_row_of(#[trigger] w[j], kind, source_id) && w[j].source_event
                == LedgerEntrySourceEvent::Reversion implies exists|i: int|
            0 <= i < j && is_execution_of(w[i], kind, source_id) && #[trigger] negates(w[j], w[i]) by {
            if j < n {
                let i = choose|i: int| 0 <= i < j && is_execution_of(ledger[i], kind, source_id) && #[trigger] negates(ledger[j], ledger[i]);
                assert(negates(w[j], w[i]));
            } else {
                assert(w[j] == appended[j - n]);
            }
        }
    }
    assert(only_own_reversions(w, kind, source_id)) by {
        reveal(only_own_reversions);
        assert forall|a: int, b: int|
            0 <= a < w.len() && 0 <= b < w.len() && is_execution_of(#[trigger] w[a], kind, source_id)
                && (#[trigger] w[b]).reverses_entry_id == Some(w[a].id) implies is_row_of(w[b], kind, source_id)
            && w[b].source_event == LedgerEntrySourceEvent::Reversion by {
            if b >= n {
                assert(w[b] == appended[b - n]);
            } else if a >= n {
                // No row of the ledger reverses a fresh id.
                assert(w[a] == appended[a - n]);
                assert(ledger[b].reverses_entry_id != Some(appended[a - n].id));
            }
        }
    }
}

} // verus!
