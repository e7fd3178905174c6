//! What the flow views promise, row by row: where each listed row comes from,
//! what it shows of its document, and which documents are never left out.
use vstd::prelude::*;

use crate::enums::{pipeline_status_of, DispatchMethod, DocumentStatus, FlowEntityType, FlowType, PipelineStatus};
use crate::quantity::Quantity;
use crate::flat_rows::{name_or, opt_text};
use crate::flow::{
    flow_passes, part_if, spec_pending_waybill_rows, text_filter_passes,
    insert_by_date, page_of, sort_by_date, spec_cargo_flow_all, spec_cargo_flow_page, text_lt, CargoFlowSources,
    blending_flow_listed, blending_flow_row_of, dispatch_flow_listed, dispatch_flow_row_of, line_flow_listed,
    line_flow_row_of, pending_listed, pending_row_of, spec_blending_flow_rows, spec_dispatch_flow_rows,
    spec_line_flow_rows, spec_pending_rows, LineFlowKind, LoadedBlendingFlow, LoadedLineFlow, LoadedPendingWaybill,
    acceptance_flow_listed, acceptance_flow_row_of, listed_rows, rail_acting_acceptance, rail_receipt_listed,
    receipt_row_with, receipt_status, rows_sum, spec_acceptance_flow_rows, spec_rail_receipt_flow,
    spec_truck_dispatch_flow, spec_truck_receipt_flow, status_text, truck_acting_acceptance,
    truck_dispatch_flow_row_of, truck_dispatch_listed, truck_receipt_listed, unknown_text, CargoFlowRowView,
    LoadedAcceptanceFlow, LoadedDispatchFlow, LoadedReceiptFlow, ReceiptFlowRowView, TruckDispatchFlowRowView,
};
use crate::pipelines::status_passes;

verus! {

// ---------------------------------------------------------------------------
// Filtered listings
// ---------------------------------------------------------------------------

/// Every row of a filtered listing is the row of a listed document.
pub proof fn lemma_listed_rows_source<T>(
    docs: Seq<T>,
    listed: spec_fn(T) -> bool,
    row: spec_fn(T) -> CargoFlowRowView,
    j: int,
)
    requires
        0 <= j < listed_rows(docs, listed, row).len(),
    ensures
        exists|k: int| 0 <= k < docs.len() && listed(docs[k]) && listed_rows(docs, listed, row)[j] == row(docs[k]),
    decreases docs.len(),
{
    let prev = listed_rows(docs.drop_last(), listed, row);
    if j < prev.len() {
        lemma_listed_rows_source(docs.drop_last(), listed, row, j);
        let k = choose|k: int|
            0 <= k < docs.drop_last().len() && listed(docs.drop_last()[k]) && prev[j] == row(docs.drop_last()[k]);
        assert(docs.drop_last()[k] == docs[k]);
    } else {
        assert(docs.last() == docs[docs.len() - 1]);
    }
}

/// Every listed document has its row in a filtered listing.
pub proof fn lemma_listed_rows_cover<T>(
    docs: Seq<T>,
    listed: spec_fn(T) -> bool,
    row: spec_fn(T) -> CargoFlowRowView,
    k: int,
)
    requires
        0 <= k < docs.len(),
        listed(docs[k]),
    ensures
        exists|j: int|
            0 <= j < listed_rows(docs, listed, row).len() && listed_rows(docs, listed, row)[j] == row(docs[k]),
    decreases docs.len(),
{
    let rows = listed_rows(docs, listed, row);
    let prev = listed_rows(docs.drop_last(), listed, row);
    if k < docs.len() - 1 {
        assert(docs.drop_last()[k] == docs[k]);
        lemma_listed_rows_cover(docs.drop_last(), listed, row, k);
        let j = choose|j: int| 0 <= j < prev.len() && prev[j] == row(docs.drop_last()[k]);
        assert(rows[j] == prev[j]);
    } else {
        assert(docs.last() == docs[k]);
        assert(rows[prev.len() as int] == row(docs[k]));
    }
}

// ---------------------------------------------------------------------------
// Acceptances in the cargo flow
// ---------------------------------------------------------------------------

/// The operation that an acceptance linked to a waybill is listed under.
pub open spec fn receipt_operation_of(d: LoadedAcceptanceFlow) -> Seq<char> {
    if d.truck_waybill_id is Some {
        "Truck Receipt"@
    } else {
        "Rail Receipt"@
    }
}

/// The contractor of an acceptance's cargo flow row is the sender of the waybill
/// it is linked to, a truck waybill or a rail waybill alike, shown with that
/// sender's name; a transit or external acceptance has no contractor. Every row
/// is an incoming acceptance row of a loaded acceptance and passes the
/// contractor filter. An acceptance linked to a waybill is never left out when
/// its status, its operation ("Truck Receipt" or "Rail Receipt") and its
/// waybill's sender pass the filters.
pub proof fn law_acceptance_rows_name_waybill_sender(
    docs: Seq<LoadedAcceptanceFlow>,
    operation: Option<Seq<char>>,
    status: Option<PipelineStatus>,
    contractor_id: Option<u128>,
)
    ensures
        forall|j: int|
            #![trigger spec_acceptance_flow_rows(docs, operation, status, contractor_id)[j]]
            0 <= j < spec_acceptance_flow_rows(docs, operation, status, contractor_id).len() ==> exists|k: int|
                #![trigger docs[k]]
                0 <= k < docs.len() && {
                    let r = spec_acceptance_flow_rows(docs, operation, status, contractor_id)[j];
                    let d = docs[k];
                    let linked = d.truck_waybill_id is Some || d.rail_waybill_id is Some;
                    &&& r.id == d.id
                    &&& r.entity_type == FlowEntityType::Acceptance
                    &&& r.flow_type == FlowType::Incoming
                    &&& r.contractor_id == (if linked {
                        d.waybill_sender_id
                    } else {
                        None
                    })
                    &&& r.contractor_name == (if linked && d.waybill_sender_id is Some {
                        opt_text(d.sender_name)
                    } else {
                        None
                    })
                    &&& (linked ==> r.operation == receipt_operation_of(d))
                    &&& (operation matches Some(o) ==> r.operation == o)
                    &&& r.status == pipeline_status_of(Some(d.status))
                    &&& (contractor_id matches Some(c) ==> r.contractor_id == Some(c))
                    &&& status_passes(status, pipeline_status_of(Some(d.status)))
                },
        forall|k: int|
            0 <= k < docs.len() && (docs[k].truck_waybill_id is Some || docs[k].rail_waybill_id is Some)
                && status_passes(status, pipeline_status_of(Some(docs[k].status))) && (operation matches Some(o)
                ==> o == receipt_operation_of(docs[k])) && (contractor_id matches Some(c)
                ==> docs[k].waybill_sender_id == Some(c)) ==> exists|j: int|
                0 <= j < spec_acceptance_flow_rows(docs, operation, status, contractor_id).len() && {
                    let r = #[trigger] spec_acceptance_flow_rows(docs, operation, status, contractor_id)[j];
                    &&& r.id == docs[k].id
                    &&& r.operation == receipt_operation_of(docs[k])
                    &&& r.contractor_id == docs[k].waybill_sender_id
                },
{
    let listed = |d: LoadedAcceptanceFlow| acceptance_flow_listed(d, operation, status, contractor_id);
    let row = |d: LoadedAcceptanceFlow| acceptance_flow_row_of(d);
    let rows = spec_acceptance_flow_rows(docs, operation, status, contractor_id);
    assert(rows == listed_rows(docs, listed, row));
    assert forall|j: int| #![trigger rows[j]] 0 <= j < rows.len() implies exists|k: int|
        #![trigger docs[k]]
        0 <= k < docs.len() && {
            let r = rows[j];
            let d = docs[k];
            let linked = d.truck_waybill_id is Some || d.rail_waybill_id is Some;
            &&& r.id == d.id
            &&& r.entity_type == FlowEntityType::Acceptance
            &&& r.flow_type == FlowType::Incoming
            &&& r.contractor_id == (if linked {
                d.waybill_sender_id
            } else {
                None
            })
            &&& r.contractor_name == (if linked && d.waybill_sender_id is Some {
                opt_text(d.sender_name)
            } else {
                None
            })
            &&& (linked ==> r.operation == receipt_operation_of(d))
            &&& (operation matches Some(o) ==> r.operation == o)
            &&& r.status == pipeline_status_of(Some(d.status))
            &&& (contractor_id matches Some(c) ==> r.contractor_id == Some(c))
            &&& status_passes(status, pipeline_status_of(Some(d.status)))
        } by {
        lemma_listed_rows_source(docs, listed, row, j);
        let k = choose|k: int| 0 <= k < docs.len() && listed(docs[k]) && rows[j] == row(docs[k]);
        assert(listed(docs[k]));
        assert(rows[j] == acceptance_flow_row_of(docs[k]));
    }
    assert forall|k: int|
        0 <= k < docs.len() && (docs[k].truck_waybill_id is Some || docs[k].rail_waybill_id is Some)
            && status_passes(status, pipeline_status_of(Some(docs[k].status))) && (operation matches Some(o)
            ==> o == receipt_operation_of(docs[k])) && (contractor_id matches Some(c) ==> docs[k].waybill_sender_id
            == Some(c)) implies exists|j: int|
        0 <= j < rows.len() && {
            let r = #[trigger] rows[j];
            &&& r.id == docs[k].id
            &&& r.operation == receipt_operation_of(docs[k])
            &&& r.contractor_id == docs[k].waybill_sender_id
        } by {
        assert(listed(docs[k]));
        lemma_listed_rows_cover(docs, listed, row, k);
        let j = choose|j: int| 0 <= j < rows.len() && rows[j] == row(docs[k]);
        assert(rows[j] == acceptance_flow_row_of(docs[k]));
    }
}

// ---------------------------------------------------------------------------
// Truck dispatch flow
// ---------------------------------------------------------------------------

proof fn lemma_truck_dispatch_source(
    docs: Seq<LoadedDispatchFlow>,
    status: Option<PipelineStatus>,
    contractor_id: Option<u128>,
    j: int,
)
    requires
        0 <= j < spec_truck_dispatch_flow(docs, status, contractor_id).len(),
    ensures
        exists|k: int|
            0 <= k < docs.len() && truck_dispatch_listed(docs[k], status, contractor_id)
                && spec_truck_dispatch_flow(docs, status, contractor_id)[j] == truck_dispatch_flow_row_of(docs[k]),
    decreases docs.len(),
{
    let prev = spec_truck_dispatch_flow(docs.drop_last(), status, contractor_id);
    if j < prev.len() {
        lemma_truck_dispatch_source(docs.drop_last(), status, contractor_id, j);
        let k = choose|k: int|
            0 <= k < docs.drop_last().len() && truck_dispatch_listed(docs.drop_last()[k], status, contractor_id)
                && prev[j] == truck_dispatch_flow_row_of(docs.drop_last()[k]);
        assert(docs.drop_last()[k] == docs[k]);
    } else {
        assert(docs.last() == docs[docs.len() - 1]);
    }
}

proof fn lemma_truck_dispatch_cover(
    docs: Seq<LoadedDispatchFlow>,
    status: Option<PipelineStatus>,
    contractor_id: Option<u128>,
    k: int,
)
    requires
        0 <= k < docs.len(),
        truck_dispatch_listed(docs[k], status, contractor_id),
    ensures
        exists|j: int|
            0 <= j < spec_truck_dispatch_flow(docs, status, contractor_id).len() && spec_truck_dispatch_flow(
                docs,
                status,
                contractor_id,
            )[j] == truck_dispatch_flow_row_of(docs[k]),
    decreases docs.len(),
{
    let rows = spec_truck_dispatch_flow(docs, status, contractor_id);
    let prev = spec_truck_dispatch_flow(docs.drop_last(), status, contractor_id);
    if k < docs.len() - 1 {
        assert(docs.drop_last()[k] == docs[k]);
        lemma_truck_dispatch_cover(docs.drop_last(), status, contractor_id, k);
        let j = choose|j: int| 0 <= j < prev.len() && prev[j] == truck_dispatch_flow_row_of(docs.drop_last()[k]);
        assert(rows[j] == prev[j]);
    } else {
        assert(docs.last() == docs[k]);
        assert(rows[prev.len() as int] == truck_dispatch_flow_row_of(docs[k]));
    }
}

/// The truck dispatch flow lists exactly the truck dispatches whose contractor
/// and pipeline status pass the filters, whatever their purpose: every row is
/// such a dispatch, with the sum of its item amounts and its pipeline status,
/// and every such dispatch has its row.
pub proof fn law_truck_dispatch_flow_lists_truck_dispatches(
    docs: Seq<LoadedDispatchFlow>,
    status: Option<PipelineStatus>,
    contractor_id: Option<u128>,
)
    ensures
        forall|j: int|
            #![trigger spec_truck_dispatch_flow(docs, status, contractor_id)[j]]
            0 <= j < spec_truck_dispatch_flow(docs, status, contractor_id).len() ==> exists|k: int|
                #![trigger docs[k]]
                0 <= k < docs.len() && {
                    let r = spec_truck_dispatch_flow(docs, status, contractor_id)[j];
                    let d = docs[k];
                    &&& d.dispatch_method == DispatchMethod::Truck
                    &&& (contractor_id matches Some(c) ==> d.contractor_id == c)
                    &&& status_passes(status, pipeline_status_of(Some(d.status)))
                    &&& r.dispatch_id == d.id
                    &&& r.contractor_id == d.contractor_id
                    &&& r.dispatched_quantity == rows_sum(d.item_amounts@)
                    &&& r.pipeline_status == pipeline_status_of(Some(d.status))
                },
        forall|k: int|
            0 <= k < docs.len() && docs[k].dispatch_method == DispatchMethod::Truck && (contractor_id matches Some(c)
                ==> docs[k].contractor_id == c) && status_passes(status, pipeline_status_of(Some(docs[k].status)))
                ==> exists|j: int|
                0 <= j < spec_truck_dispatch_flow(docs, status, contractor_id).len() && {
                    let r = #[trigger] spec_truck_dispatch_flow(docs, status, contractor_id)[j];
                    &&& r.dispatch_id == docs[k].id
                    &&& r.dispatched_quantity == rows_sum(docs[k].item_amounts@)
                    &&& r.pipeline_status == pipeline_status_of(Some(docs[k].status))
                },
{
    let rows = spec_truck_dispatch_flow(docs, status, contractor_id);
    assert forall|j: int| #![trigger rows[j]] 0 <= j < rows.len() implies exists|k: int|
        #![trigger docs[k]]
        0 <= k < docs.len() && {
            let r = rows[j];
            let d = docs[k];
            &&& d.dispatch_method == DispatchMethod::Truck
            &&& (contractor_id matches Some(c) ==> d.contractor_id == c)
            &&& status_passes(status, pipeline_status_of(Some(d.status)))
            &&& r.dispatch_id == d.id
            &&& r.contractor_id == d.contractor_id
            &&& r.dispatched_quantity == rows_sum(d.item_amounts@)
            &&& r.pipeline_status == pipeline_status_of(Some(d.status))
        } by {
        lemma_truck_dispatch_source(docs, status, contractor_id, j);
        let k = choose|k: int|
            0 <= k < docs.len() && truck_dispatch_listed(docs[k], status, contractor_id) && rows[j]
                == truck_dispatch_flow_row_of(docs[k]);
        assert(truck_dispatch_listed(docs[k], status, contractor_id));
    }
    assert forall|k: int|
        0 <= k < docs.len() && docs[k].dispatch_method == DispatchMethod::Truck && (contractor_id matches Some(c)
            ==> docs[k].contractor_id == c) && status_passes(status, pipeline_status_of(Some(docs[k].status)))
        implies exists|j: int|
        0 <= j < rows.len() && {
            let r = #[trigger] rows[j];
            &&& r.dispatch_id == docs[k].id
            &&& r.dispatched_quantity == rows_sum(docs[k].item_amounts@)
            &&& r.pipeline_status == pipeline_status_of(Some(docs[k].status))
        } by {
        assert(truck_dispatch_listed(docs[k], status, contractor_id));
        lemma_truck_dispatch_cover(docs, status, contractor_id, k);
    }
}

// ---------------------------------------------------------------------------
// Receipt flows
// ---------------------------------------------------------------------------

/// The declared amount of a waybill's first line, none without a line.
pub open spec fn declared_amount(wb: LoadedReceiptFlow) -> Option<Quantity> {
    match wb.first_line {
        Some(l) => Some(l.amount),
        None => None,
    }
}

/// The pipeline status of a waybill whose acting acceptance is at `i` among its
/// acceptances: pending when it has none, else that acceptance's.
pub open spec fn status_with(wb: LoadedReceiptFlow, i: int) -> PipelineStatus {
    if wb.acceptances@.len() == 0 {
        PipelineStatus::Pending
    } else if wb.acceptances@[i].status == DocumentStatus::Draft {
        PipelineStatus::Draft
    } else {
        PipelineStatus::Executed
    }
}

/// What a receipt flow row shows of its waybill when the acting acceptance is
/// at `i`: the waybill's id and sender, the declared amount of its first line
/// as the expected quantity, and, from the acting acceptance, its id and the
/// sum of its item amounts as the actual quantity (none without acceptance).
pub open spec fn receipt_row_reports<S>(r: ReceiptFlowRowView<S>, wb: LoadedReceiptFlow, i: int) -> bool {
    &&& r.basis_id == wb.id
    &&& r.basis_document_number == wb.document_number@
    &&& r.contractor_id == wb.sender_id
    &&& r.expected_quantity == declared_amount(wb)
    &&& r.action_id == (if wb.acceptances@.len() == 0 {
        None
    } else {
        Some(wb.acceptances@[i].id)
    })
    &&& r.actual_quantity == (if wb.acceptances@.len() == 0 {
        None
    } else {
        rows_sum(wb.acceptances@[i].item_amounts@)
    })
}

proof fn lemma_rail_receipt_source(
    wbs: Seq<LoadedReceiptFlow>,
    status: Option<PipelineStatus>,
    contractor_id: Option<u128>,
    j: int,
)
    requires
        0 <= j < spec_rail_receipt_flow(wbs, status, contractor_id).len(),
    ensures
        exists|k: int|
            0 <= k < wbs.len() && rail_receipt_listed(wbs[k], status, contractor_id) && spec_rail_receipt_flow(
                wbs,
                status,
                contractor_id,
            )[j] == receipt_row_with(
                wbs[k],
                rail_acting_acceptance(wbs[k]),
                name_or(wbs[k].sender_name, Seq::empty()),
                receipt_status(rail_acting_acceptance(wbs[k])),
            ),
    decreases wbs.len(),
{
    let prev = spec_rail_receipt_flow(wbs.drop_last(), status, contractor_id);
    if j < prev.len() {
        lemma_rail_receipt_source(wbs.drop_last(), status, contractor_id, j);
        let k = choose|k: int|
            0 <= k < wbs.drop_last().len() && rail_receipt_listed(wbs.drop_last()[k], status, contractor_id)
                && prev[j] == receipt_row_with(
                wbs.drop_last()[k],
                rail_acting_acceptance(wbs.drop_last()[k]),
                name_or(wbs.drop_last()[k].sender_name, Seq::empty()),
                receipt_status(rail_acting_acceptance(wbs.drop_last()[k])),
            );
        assert(wbs.drop_last()[k] == wbs[k]);
    } else {
        assert(wbs.last() == wbs[wbs.len() - 1]);
    }
}

proof fn lemma_rail_receipt_cover(
    wbs: Seq<LoadedReceiptFlow>,
    status: Option<PipelineStatus>,
    contractor_id: Option<u128>,
    k: int,
)
    requires
        0 <= k < wbs.len(),
        rail_receipt_listed(wbs[k], status, contractor_id),
    ensures
        exists|j: int|
            0 <= j < spec_rail_receipt_flow(wbs, status, contractor_id).len() && spec_rail_receipt_flow(
                wbs,
                status,
                contractor_id,
            )[j] == receipt_row_with(
                wbs[k],
                rail_acting_acceptance(wbs[k]),
                name_or(wbs[k].sender_name, Seq::empty()),
                receipt_status(rail_acting_acceptance(wbs[k])),
            ),
    decreases wbs.len(),
{
    let rows = spec_rail_receipt_flow(wbs, status, contractor_id);
    let prev = spec_rail_receipt_flow(wbs.drop_last(), status, contractor_id);
    if k < wbs.len() - 1 {
        assert(wbs.drop_last()[k] == wbs[k]);
        lemma_rail_receipt_cover(wbs.drop_last(), status, contractor_id, k);
        let j = choose|j: int|
            0 <= j < prev.len() && prev[j] == receipt_row_with(
                wbs.drop_last()[k],
                rail_acting_acceptance(wbs.drop_last()[k]),
                name_or(wbs.drop_last()[k].sender_name, Seq::empty()),
                receipt_status(rail_acting_acceptance(wbs.drop_last()[k])),
            );
        assert(rows[j] == prev[j]);
    } else {
        assert(wbs.last() == wbs[k]);
        assert(rows[prev.len() as int] == receipt_row_with(
            wbs[k],
            rail_acting_acceptance(wbs[k]),
            name_or(wbs[k].sender_name, Seq::empty()),
            receipt_status(rail_acting_acceptance(wbs[k])),
        ));
    }
}

/// The rail receipt flow lists exactly the waybills whose sender and pipeline
/// status pass the filters. Each row expects the declared amount of its
/// waybill's first line, whatever its acceptances, and takes its action, actual
/// quantity (the sum of the items) and status from the first acceptance linked
/// to the waybill; a waybill without acceptance is pending, with neither action
/// nor actual quantity.
pub proof fn law_rail_receipt_rows_expect_first_line(
    wbs: Seq<LoadedReceiptFlow>,
    status: Option<PipelineStatus>,
    contractor_id: Option<u128>,
)
    ensures
        forall|j: int|
            #![trigger spec_rail_receipt_flow(wbs, status, contractor_id)[j]]
            0 <= j < spec_rail_receipt_flow(wbs, status, contractor_id).len() ==> exists|k: int|
                #![trigger wbs[k]]
                0 <= k < wbs.len() && {
                    let r = spec_rail_receipt_flow(wbs, status, contractor_id)[j];
                    &&& receipt_row_reports(r, wbs[k], 0)
                    &&& r.contractor_name == name_or(wbs[k].sender_name, Seq::empty())
                    &&& r.pipeline_status == status_with(wbs[k], 0)
                    &&& (contractor_id matches Some(c) ==> wbs[k].sender_id == c)
                    &&& status_passes(status, status_with(wbs[k], 0))
                },
        forall|k: int|
            #![trigger wbs[k]]
            0 <= k < wbs.len() && (contractor_id matches Some(c) ==> wbs[k].sender_id == c) && status_passes(
                status,
                status_with(wbs[k], 0),
            ) ==> exists|j: int|
                0 <= j < spec_rail_receipt_flow(wbs, status, contractor_id).len() && receipt_row_reports(
                    #[trigger] spec_rail_receipt_flow(wbs, status, contractor_id)[j],
                    wbs[k],
                    0,
                ),
{
    let rows = spec_rail_receipt_flow(wbs, status, contractor_id);
    assert forall|j: int| #![trigger rows[j]] 0 <= j < rows.len() implies exists|k: int|
        #![trigger wbs[k]]
        0 <= k < wbs.len() && {
            let r = rows[j];
            &&& receipt_row_reports(r, wbs[k], 0)
            &&& r.contractor_name == name_or(wbs[k].sender_name, Seq::empty())
            &&& r.pipeline_status == status_with(wbs[k], 0)
            &&& (contractor_id matches Some(c) ==> wbs[k].sender_id == c)
            &&& status_passes(status, status_with(wbs[k], 0))
        } by {
        lemma_rail_receipt_source(wbs, status, contractor_id, j);
        let k = choose|k: int|
            0 <= k < wbs.len() && rail_receipt_listed(wbs[k], status, contractor_id) && rows[j] == receipt_row_with(
                wbs[k],
                rail_acting_acceptance(wbs[k]),
                name_or(wbs[k].sender_name, Seq::empty()),
                receipt_status(rail_acting_acceptance(wbs[k])),
            );
        assert(rail_receipt_listed(wbs[k], status, contractor_id));
    }
    assert forall|k: int|
        #![trigger wbs[k]]
        0 <= k < wbs.len() && (contractor_id matches Some(c) ==> wbs[k].sender_id == c) && status_passes(
            status,
            status_with(wbs[k], 0),
        ) implies exists|j: int| 0 <= j < rows.len() && receipt_row_reports(#[trigger] rows[j], wbs[k], 0) by {
        assert(rail_receipt_listed(wbs[k], status, contractor_id));
        lemma_rail_receipt_cover(wbs, status, contractor_id, k);
    }
}

/// The text of a pipeline status in the truck receipt flow.
pub open spec fn status_word(status: PipelineStatus) -> Seq<char> {
    match status {
        PipelineStatus::Pending => "pending"@,
        PipelineStatus::Draft => "draft"@,
        PipelineStatus::Executed => "executed"@,
    }
}

proof fn lemma_truck_receipt_source(
    wbs: Seq<LoadedReceiptFlow>,
    status: Option<Seq<char>>,
    contractor_id: Option<u128>,
    j: int,
)
    requires
        0 <= j < spec_truck_receipt_flow(wbs, status, contractor_id).len(),
    ensures
        exists|k: int|
            0 <= k < wbs.len() && truck_receipt_listed(wbs[k], status, contractor_id) && spec_truck_receipt_flow(
                wbs,
                status,
                contractor_id,
            )[j] == receipt_row_with(
                wbs[k],
                truck_acting_acceptance(wbs[k]),
                name_or(wbs[k].sender_name, unknown_text()),
                status_text(receipt_status(truck_acting_acceptance(wbs[k]))),
            ),
    decreases wbs.len(),
{
    let prev = spec_truck_receipt_flow(wbs.drop_last(), status, contractor_id);
    if j < prev.len() {
        lemma_truck_receipt_source(wbs.drop_last(), status, contractor_id, j);
        let k = choose|k: int|
            0 <= k < wbs.drop_last().len() && truck_receipt_listed(wbs.drop_last()[k], status, contractor_id)
                && prev[j] == receipt_row_with(
                wbs.drop_last()[k],
                truck_acting_acceptance(wbs.drop_last()[k]),
                name_or(wbs.drop_last()[k].sender_name, unknown_text()),
                status_text(receipt_status(truck_acting_acceptance(wbs.drop_last()[k]))),
            );
        assert(wbs.drop_last()[k] == wbs[k]);
    } else {
        assert(wbs.last() == wbs[wbs.len() - 1]);
    }
}

proof fn lemma_truck_receipt_cover(
    wbs: Seq<LoadedReceiptFlow>,
    status: Option<Seq<char>>,
    contractor_id: Option<u128>,
    k: int,
)
    requires
        0 <= k < wbs.len(),
        truck_receipt_listed(wbs[k], status, contractor_id),
    ensures
        exists|j: int|
            0 <= j < spec_truck_receipt_flow(wbs, status, contractor_id).len() && spec_truck_receipt_flow(
                wbs,
                status,
                contractor_id,
            )[j] == receipt_row_with(
                wbs[k],
                truck_acting_acceptance(wbs[k]),
                name_or(wbs[k].sender_name, unknown_text()),
                status_text(receipt_status(truck_acting_acceptance(wbs[k]))),
            ),
    decreases wbs.len(),
{
    let rows = spec_truck_receipt_flow(wbs, status, contractor_id);
    let prev = spec_truck_receipt_flow(wbs.drop_last(), status, contractor_id);
    if k < wbs.len() - 1 {
        assert(wbs.drop_last()[k] == wbs[k]);
        lemma_truck_receipt_cover(wbs.drop_last(), status, contractor_id, k);
        let j = choose|j: int|
            0 <= j < prev.len() && prev[j] == receipt_row_with(
                wbs.drop_last()[k],
                truck_acting_acceptance(wbs.drop_last()[k]),
                name_or(wbs.drop_last()[k].sender_name, unknown_text()),
                status_text(receipt_status(truck_acting_acceptance(wbs.drop_last()[k]))),
            );
        assert(rows[j] == prev[j]);
    } else {
        assert(wbs.last() == wbs[k]);
        assert(rows[prev.len() as int] == receipt_row_with(
            wbs[k],
            truck_acting_acceptance(wbs[k]),
            name_or(wbs[k].sender_name, unknown_text()),
            status_text(receipt_status(truck_acting_acceptance(wbs[k]))),
        ));
    }
}

/// The truck receipt flow lists exactly the waybills whose sender and status
/// text pass the filters. Each row expects the declared amount of its waybill's
/// first line, whatever its acceptances, names the sender or "Unknown", and
/// takes its action, actual quantity (the sum of the items) and status text
/// from the last acceptance linked to the waybill; a waybill without acceptance
/// is "pending", with neither action nor actual quantity.
pub proof fn law_truck_receipt_rows_expect_first_line(
    wbs: Seq<LoadedReceiptFlow>,
    status: Option<Seq<char>>,
    contractor_id: Option<u128>,
)
    ensures
        forall|j: int|
            #![trigger spec_truck_receipt_flow(wbs, status, contractor_id)[j]]
            0 <= j < spec_truck_receipt_flow(wbs, status, contractor_id).len() ==> exists|k: int|
                #![trigger wbs[k]]
                0 <= k < wbs.len() && {
                    let r = spec_truck_receipt_flow(wbs, status, contractor_id)[j];
                    let last = wbs[k].acceptances@.len() - 1;
                    &&& receipt_row_reports(r, wbs[k], last)
                    &&& r.contractor_name == name_or(wbs[k].sender_name, "Unknown"@)
                    &&& r.pipeline_status == status_word(status_with(wbs[k], last))
                    &&& (contractor_id matches Some(c) ==> wbs[k].sender_id == c)
                    &&& (status matches Some(t) ==> t == status_word(status_with(wbs[k], last)))
                },
        forall|k: int|
            #![trigger wbs[k]]
            0 <= k < wbs.len() && (contractor_id matches Some(c) ==> wbs[k].sender_id == c) && (status matches Some(t)
                ==> t == status_word(status_with(wbs[k], wbs[k].acceptances@.len() - 1))) ==> exists|j: int|
                0 <= j < spec_truck_receipt_flow(wbs, status, contractor_id).len() && receipt_row_reports(
                    #[trigger] spec_truck_receipt_flow(wbs, status, contractor_id)[j],
                    wbs[k],
                    wbs[k].acceptances@.len() - 1,
                ),
{
    let rows = spec_truck_receipt_flow(wbs, status, contractor_id);
    assert("Unknown"@ == unknown_text());
    assert forall|j: int| #![trigger rows[j]] 0 <= j < rows.len() implies exists|k: int|
        #![trigger wbs[k]]
        0 <= k < wbs.len() && {
            let r = rows[j];
            let last = wbs[k].acceptances@.len() - 1;
            &&& receipt_row_reports(r, wbs[k], last)
            &&& r.contractor_name == name_or(wbs[k].sender_name, "Unknown"@)
            &&& r.pipeline_status == status_word(status_with(wbs[k], last))
            &&& (contractor_id matches Some(c) ==> wbs[k].sender_id == c)
            &&& (status matches Some(t) ==> t == status_word(status_with(wbs[k], last)))
        } by {
        lemma_truck_receipt_source(wbs, status, contractor_id, j);
        let k = choose|k: int|
            0 <= k < wbs.len() && truck_receipt_listed(wbs[k], status, contractor_id) && rows[j] == receipt_row_with(
                wbs[k],
                truck_acting_acceptance(wbs[k]),
                name_or(wbs[k].sender_name, unknown_text()),
                status_text(receipt_status(truck_acting_acceptance(wbs[k]))),
            );
        assert(truck_receipt_listed(wbs[k], status, contractor_id));
    }
    assert forall|k: int|
        #![trigger wbs[k]]
        0 <= k < wbs.len() && (contractor_id matches Some(c) ==> wbs[k].sender_id == c) && (status matches Some(t)
            ==> t == status_word(status_with(wbs[k], wbs[k].acceptances@.len() - 1))) implies exists|j: int|
        0 <= j < rows.len() && receipt_row_reports(#[trigger] rows[j], wbs[k], wbs[k].acceptances@.len() - 1) by {
        assert(truck_receipt_listed(wbs[k], status, contractor_id));
        lemma_truck_receipt_cover(wbs, status, contractor_id, k);
    }
}

// ---------------------------------------------------------------------------
// The other parts of the cargo flow
// ---------------------------------------------------------------------------

/// The dispatch part of the cargo flow lists every dispatch, of any method and
/// purpose, whose contractor, status and operation pass the filters: each row is
/// an outgoing dispatch row of such a dispatch, with its contractor, its pipeline
/// status and its first item's amount; and with no operation filter every
/// dispatch of the filtered contractor and status has its row.
pub proof fn law_dispatch_rows_list_filtered_dispatches(
    docs: Seq<LoadedDispatchFlow>,
    operation: Option<Seq<char>>,
    status: Option<PipelineStatus>,
    contractor_id: Option<u128>,
)
    ensures
        forall|j: int|
            #![trigger spec_dispatch_flow_rows(docs, operation, status, contractor_id)[j]]
            0 <= j < spec_dispatch_flow_rows(docs, operation, status, contractor_id).len() ==> exists|k: int|
                #![trigger docs[k]]
                0 <= k < docs.len() && {
                    let r = spec_dispatch_flow_rows(docs, operation, status, contractor_id)[j];
                    let d = docs[k];
                    &&& r.id == d.id
                    &&& r.flow_type == FlowType::Outgoing
                    &&& r.entity_type == FlowEntityType::Dispatch
                    &&& r.contractor_id == Some(d.contractor_id)
                    &&& r.status == pipeline_status_of(Some(d.status))
                    &&& r.quantity == (match d.first_item {
                        Some(l) => Some(l.amount),
                        None => None,
                    })
                    &&& (contractor_id matches Some(c) ==> d.contractor_id == c)
                    &&& status_passes(status, pipeline_status_of(Some(d.status)))
                    &&& (operation matches Some(o) ==> o == r.operation)
                },
        forall|k: int|
            #![trigger docs[k]]
            0 <= k < docs.len() && operation is None && (contractor_id matches Some(c) ==> docs[k].contractor_id == c)
                && status_passes(status, pipeline_status_of(Some(docs[k].status))) ==> exists|j: int|
                0 <= j < spec_dispatch_flow_rows(docs, operation, status, contractor_id).len() && {
                    let r = #[trigger] spec_dispatch_flow_rows(docs, operation, status, contractor_id)[j];
                    &&& r.id == docs[k].id
                    &&& r.contractor_id == Some(docs[k].contractor_id)
                    &&& r.status == pipeline_status_of(Some(docs[k].status))
                },
{
    let listed = |d: LoadedDispatchFlow| dispatch_flow_listed(d, operation, status, contractor_id);
    let row = |d: LoadedDispatchFlow| dispatch_flow_row_of(d);
    let rows = spec_dispatch_flow_rows(docs, operation, status, contractor_id);
    assert(rows == listed_rows(docs, listed, row));
    assert forall|j: int| #![trigger rows[j]] 0 <= j < rows.len() implies exists|k: int|
        #![trigger docs[k]]
        0 <= k < docs.len() && {
            let r = rows[j];
            let d = docs[k];
            &&& r.id == d.id
            &&& r.flow_type == FlowType::Outgoing
            &&& r.entity_type == FlowEntityType::Dispatch
            &&& r.contractor_id == Some(d.contractor_id)
            &&& r.status == pipeline_status_of(Some(d.status))
            &&& r.quantity == (match d.first_item {
                Some(l) => Some(l.amount),
                None => None,
            })
            &&& (contractor_id matches Some(c) ==> d.contractor_id == c)
            &&& status_passes(status, pipeline_status_of(Some(d.status)))
            &&& (operation matches Some(o) ==> o == r.operation)
        } by {
        lemma_listed_rows_source(docs, listed, row, j);
        let k = choose|k: int| 0 <= k < docs.len() && listed(docs[k]) && rows[j] == row(docs[k]);
        assert(listed(docs[k]));
        assert(rows[j] == dispatch_flow_row_of(docs[k]));
    }
    assert forall|k: int|
        #![trigger docs[k]]
        0 <= k < docs.len() && operation is None && (contractor_id matches Some(c) ==> docs[k].contractor_id == c)
            && status_passes(status, pipeline_status_of(Some(docs[k].status))) implies exists|j: int|
        0 <= j < rows.len() && {
            let r = #[trigger] rows[j];
            &&& r.id == docs[k].id
            &&& r.contractor_id == Some(docs[k].contractor_id)
            &&& r.status == pipeline_status_of(Some(docs[k].status))
        } by {
        assert(listed(docs[k]));
        lemma_listed_rows_cover(docs, listed, row, k);
        let j = choose|j: int| 0 <= j < rows.len() && rows[j] == row(docs[k]);
        assert(rows[j] == dispatch_flow_row_of(docs[k]));
    }
}

/// A waybill is listed as pending exactly when it has no acceptance and its
/// sender passes the contractor filter: each pending row is such a waybill's,
/// pending, incoming, with the sender as contractor; every such waybill has its
/// row.
pub proof fn law_pending_rows_are_waybills_without_acceptance(
    waybills: Seq<LoadedPendingWaybill>,
    rail: bool,
    contractor_id: Option<u128>,
)
    ensures
        forall|j: int|
            #![trigger spec_pending_rows(waybills, rail, contractor_id)[j]]
            0 <= j < spec_pending_rows(waybills, rail, contractor_id).len() ==> exists|k: int|
                #![trigger waybills[k]]
                0 <= k < waybills.len() && {
                    let r = spec_pending_rows(waybills, rail, contractor_id)[j];
                    let w = waybills[k];
                    &&& !w.has_acceptance
                    &&& (contractor_id matches Some(c) ==> w.sender_id == c)
                    &&& r.id == w.id
                    &&& r.flow_type == FlowType::Incoming
                    &&& r.status == PipelineStatus::Pending
                    &&& r.contractor_id == Some(w.sender_id)
                    &&& r.operation == (if rail {
                        "Rail Receipt"@
                    } else {
                        "Truck Receipt"@
                    })
                },
        forall|k: int|
            #![trigger waybills[k]]
            0 <= k < waybills.len() && !waybills[k].has_acceptance && (contractor_id matches Some(c)
                ==> waybills[k].sender_id == c) ==> exists|j: int|
                0 <= j < spec_pending_rows(waybills, rail, contractor_id).len() && {
                    let r = #[trigger] spec_pending_rows(waybills, rail, contractor_id)[j];
                    &&& r.id == waybills[k].id
                    &&& r.status == PipelineStatus::Pending
                },
{
    let listed = |w: LoadedPendingWaybill| pending_listed(w, contractor_id);
    let row = |w: LoadedPendingWaybill| pending_row_of(w, rail);
    let rows = spec_pending_rows(waybills, rail, contractor_id);
    assert(rows == listed_rows(waybills, listed, row));
    assert forall|j: int| #![trigger rows[j]] 0 <= j < rows.len() implies exists|k: int|
        #![trigger waybills[k]]
        0 <= k < waybills.len() && {
            let r = rows[j];
            let w = waybills[k];
            &&& !w.has_acceptance
            &&& (contractor_id matches Some(c) ==> w.sender_id == c)
            &&& r.id == w.id
            &&& r.flow_type == FlowType::Incoming
            &&& r.status == PipelineStatus::Pending
            &&& r.contractor_id == Some(w.sender_id)
            &&& r.operation == (if rail {
                "Rail Receipt"@
            } else {
                "Truck Receipt"@
            })
        } by {
        lemma_listed_rows_source(waybills, listed, row, j);
        let k = choose|k: int| 0 <= k < waybills.len() && listed(waybills[k]) && rows[j] == row(waybills[k]);
        assert(listed(waybills[k]));
        assert(rows[j] == pending_row_of(waybills[k], rail));
    }
    assert forall|k: int|
        #![trigger waybills[k]]
        0 <= k < waybills.len() && !waybills[k].has_acceptance && (contractor_id matches Some(c)
            ==> waybills[k].sender_id == c) implies exists|j: int|
        0 <= j < rows.len() && {
            let r = #[trigger] rows[j];
            &&& r.id == waybills[k].id
            &&& r.status == PipelineStatus::Pending
        } by {
        assert(listed(waybills[k]));
        lemma_listed_rows_cover(waybills, listed, row, k);
        let j = choose|j: int| 0 <= j < rows.len() && rows[j] == row(waybills[k]);
        assert(rows[j] == pending_row_of(waybills[k], rail));
    }
}

/// The blending part of the cargo flow lists exactly the blendings whose
/// contractor and status pass the filters, each as an internal row with its
/// contractor and pipeline status and no single quantity.
pub proof fn law_blending_rows_list_filtered_blendings(
    docs: Seq<LoadedBlendingFlow>,
    status: Option<PipelineStatus>,
    contractor_id: Option<u128>,
)
    ensures
        forall|j: int|
            #![trigger spec_blending_flow_rows(docs, status, contractor_id)[j]]
            0 <= j < spec_blending_flow_rows(docs, status, contractor_id).len() ==> exists|k: int|
                #![trigger docs[k]]
                0 <= k < docs.len() && {
                    let r = spec_blending_flow_rows(docs, status, contractor_id)[j];
                    let d = docs[k];
                    &&& (contractor_id matches Some(c) ==> d.contractor_id == c)
                    &&& status_passes(status, pipeline_status_of(Some(d.status)))
                    &&& r.id == d.id
                    &&& r.flow_type == FlowType::Internal
                    &&& r.contractor_id == Some(d.contractor_id)
                    &&& r.status == pipeline_status_of(Some(d.status))
                    &&& r.quantity is None
                    &&& r.operation == "Blending"@
                },
        forall|k: int|
            #![trigger docs[k]]
            0 <= k < docs.len() && (contractor_id matches Some(c) ==> docs[k].contractor_id == c) && status_passes(
                status,
                pipeline_status_of(Some(docs[k].status)),
            ) ==> exists|j: int|
                0 <= j < spec_blending_flow_rows(docs, status, contractor_id).len() && {
                    let r = #[trigger] spec_blending_flow_rows(docs, status, contractor_id)[j];
                    &&& r.id == docs[k].id
                    &&& r.contractor_id == Some(docs[k].contractor_id)
                },
{
    let listed = |d: LoadedBlendingFlow| blending_flow_listed(d, status, contractor_id);
    let row = |d: LoadedBlendingFlow| blending_flow_row_of(d);
    let rows = spec_blending_flow_rows(docs, status, contractor_id);
    assert(rows == listed_rows(docs, listed, row));
    assert forall|j: int| #![trigger rows[j]] 0 <= j < rows.len() implies exists|k: int|
        #![trigger docs[k]]
        0 <= k < docs.len() && {
            let r = rows[j];
            let d = docs[k];
            &&& (contractor_id matches Some(c) ==> d.contractor_id == c)
            &&& status_passes(status, pipeline_status_of(Some(d.status)))
            &&& r.id == d.id
            &&& r.flow_type == FlowType::Internal
            &&& r.contractor_id == Some(d.contractor_id)
            &&& r.status == pipeline_status_of(Some(d.status))
            &&& r.quantity is None
            &&& r.operation == "Blending"@
        } by {
        lemma_listed_rows_source(docs, listed, row, j);
        let k = choose|k: int| 0 <= k < docs.len() && listed(docs[k]) && rows[j] == row(docs[k]);
        assert(listed(docs[k]));
        assert(rows[j] == blending_flow_row_of(docs[k]));
    }
    assert forall|k: int|
        #![trigger docs[k]]
        0 <= k < docs.len() && (contractor_id matches Some(c) ==> docs[k].contractor_id == c) && status_passes(
            status,
            pipeline_status_of(Some(docs[k].status)),
        ) implies exists|j: int|
        0 <= j < rows.len() && {
            let r = #[trigger] rows[j];
            &&& r.id == docs[k].id
            &&& r.contractor_id == Some(docs[k].contractor_id)
        } by {
        assert(listed(docs[k]));
        lemma_listed_rows_cover(docs, listed, row, k);
        let j = choose|j: int| 0 <= j < rows.len() && rows[j] == row(docs[k]);
        assert(rows[j] == blending_flow_row_of(docs[k]));
    }
}

/// The transfer and reconciliation parts of the cargo flow list exactly the
/// documents whose status passes the filter and whose first line's contractor
/// is the filtered one (a document without line only when no contractor is
/// filtered): each as an internal row with its first line's contractor, and
/// its first line's amount as quantity except for a reconciliation, which
/// shows none.
pub proof fn law_line_rows_list_filtered_documents(
    docs: Seq<LoadedLineFlow>,
    kind: LineFlowKind,
    status: Option<PipelineStatus>,
    contractor_id: Option<u128>,
)
    ensures
        forall|j: int|
            #![trigger spec_line_flow_rows(docs, kind, status, contractor_id)[j]]
            0 <= j < spec_line_flow_rows(docs, kind, status, contractor_id).len() ==> exists|k: int|
                #![trigger docs[k]]
                0 <= k < docs.len() && {
                    let r = spec_line_flow_rows(docs, kind, status, contractor_id)[j];
                    let d = docs[k];
                    &&& status_passes(status, pipeline_status_of(Some(d.status)))
                    &&& (contractor_id matches Some(c) ==> (d.first_line matches Some(l) && l.contractor_id == c))
                    &&& r.id == d.id
                    &&& r.flow_type == FlowType::Internal
                    &&& r.status == pipeline_status_of(Some(d.status))
                    &&& r.operation == (match kind {
                        LineFlowKind::PhysicalTransfer => "Physical Transfer"@,
                        LineFlowKind::OwnershipTransfer => "Ownership Transfer"@,
                        LineFlowKind::Reconciliation => "Inventory Reconciliation"@,
                    })
                    &&& r.contractor_id == (match d.first_line {
                        Some(l) => Some(l.contractor_id),
                        None => None,
                    })
                    &&& r.quantity == (match d.first_line {
                        Some(l) => if kind == LineFlowKind::Reconciliation {
                            None
                        } else {
                            Some(l.amount)
                        },
                        None => None,
                    })
                },
        forall|k: int|
            #![trigger docs[k]]
            0 <= k < docs.len() && status_passes(status, pipeline_status_of(Some(docs[k].status))) && (
            contractor_id matches Some(c) ==> (docs[k].first_line matches Some(l) && l.contractor_id == c))
                ==> exists|j: int|
                0 <= j < spec_line_flow_rows(docs, kind, status, contractor_id).len()
                    && (#[trigger] spec_line_flow_rows(docs, kind, status, contractor_id)[j]).id == docs[k].id,
{
    let listed = |d: LoadedLineFlow| line_flow_listed(d, status, contractor_id);
    let row = |d: LoadedLineFlow| line_flow_row_of(d, kind);
    let rows = spec_line_flow_rows(docs, kind, status, contractor_id);
    assert(rows == listed_rows(docs, listed, row));
    assert forall|j: int| #![trigger rows[j]] 0 <= j < rows.len() implies exists|k: int|
        #![trigger docs[k]]
        0 <= k < docs.len() && {
            let r = rows[j];
            let d = docs[k];
            &&& status_passes(status, pipeline_status_of(Some(d.status)))
            &&& (contractor_id matches Some(c) ==> (d.first_line matches Some(l) && l.contractor_id == c))
            &&& r.id == d.id
            &&& r.flow_type == FlowType::Internal
            &&& r.status == pipeline_status_of(Some(d.status))
            &&& r.operation == (match kind {
                LineFlowKind::PhysicalTransfer => "Physical Transfer"@,
                LineFlowKind::OwnershipTransfer => "Ownership Transfer"@,
                LineFlowKind::Reconciliation => "Inventory Reconciliation"@,
            })
            &&& r.contractor_id == (match d.first_line {
                Some(l) => Some(l.contractor_id),
                None => None,
            })
            &&& r.quantity == (match d.first_line {
                Some(l) => if kind == LineFlowKind::Reconciliation {
                    None
                } else {
                    Some(l.amount)
                },
                None => None,
            })
        } by {
        lemma_listed_rows_source(docs, listed, row, j);
        let k = choose|k: int| 0 <= k < docs.len() && listed(docs[k]) && rows[j] == row(docs[k]);
        assert(listed(docs[k]));
        assert(rows[j] == line_flow_row_of(docs[k], kind));
    }
    assert forall|k: int|
        #![trigger docs[k]]
        0 <= k < docs.len() && status_passes(status, pipeline_status_of(Some(docs[k].status))) && (contractor_id matches Some(
            c,
        ) ==> (docs[k].first_line matches Some(l) && l.contractor_id == c)) implies exists|j: int|
        0 <= j < rows.len() && (#[trigger] rows[j]).id == docs[k].id by {
        assert(listed(docs[k]));
        lemma_listed_rows_cover(docs, listed, row, k);
        let j = choose|j: int| 0 <= j < rows.len() && rows[j] == row(docs[k]);
        assert(rows[j] == line_flow_row_of(docs[k], kind));
    }
}

// ---------------------------------------------------------------------------
// Order and pages of the cargo flow
// ---------------------------------------------------------------------------

proof fn lemma_text_lt_irreflexive(a: Seq<char>)
    ensures
        !text_lt(a, a),
    decreases a.len(),
{
    if a.len() > 0 {
        lemma_text_lt_irreflexive(a.drop_first());
    }
}

proof fn lemma_text_lt_total(a: Seq<char>, b: Seq<char>)
    ensures
        a != b ==> text_lt(a, b) || text_lt(b, a),
        !(text_lt(a, b) && text_lt(b, a)),
    decreases a.len(),
{
    if a.len() > 0 && b.len() > 0 && a[0] == b[0] {
        lemma_text_lt_total(a.drop_first(), b.drop_first());
        if a != b {
            assert(a =~= seq![a[0]] + a.drop_first());
            assert(b =~= seq![b[0]] + b.drop_first());
        }
    }
    if a.len() == 0 && b.len() == 0 {
        assert(a =~= b);
    }
    if a.len() > 0 && b.len() > 0 && a[0] != b[0] {
        vstd::utf8::char_u32_cast(a[0], a[0] as u32);
        vstd::utf8::char_u32_cast(b[0], b[0] as u32);
        assert((a[0] as u32) != (b[0] as u32));
    }
}

proof fn lemma_text_lt_transitive(a: Seq<char>, b: Seq<char>, c: Seq<char>)
    requires
        text_lt(a, b),
        text_lt(b, c),
    ensures
        text_lt(a, c),
    decreases a.len(),
{
    if a.len() > 0 && b.len() > 0 && c.len() > 0 && a[0] == b[0] && b[0] == c[0] {
        lemma_text_lt_transitive(a.drop_first(), b.drop_first(), c.drop_first());
    }
}

/// No row comes before a later row of a newer date.
pub open spec fn newest_first(rows: Seq<CargoFlowRowView>) -> bool {
    forall|i: int, j: int| 0 <= i < j < rows.len() ==> !text_lt(#[trigger] rows[i].date, #[trigger] rows[j].date)
}

proof fn lemma_not_older_chain(a: Seq<char>, b: Seq<char>, c: Seq<char>)
    requires
        !text_lt(a, b),
        !text_lt(b, c),
    ensures
        !text_lt(a, c),
{
    lemma_text_lt_total(a, b);
    if text_lt(a, c) && a != b {
        lemma_text_lt_transitive(b, a, c);
    }
}

proof fn lemma_insert_by_date_elements(sorted: Seq<CargoFlowRowView>, row: CargoFlowRowView)
    ensures
        insert_by_date(sorted, row).len() == sorted.len() + 1,
        insert_by_date(sorted, row).to_multiset() == sorted.to_multiset().insert(row),
        forall|k: int|
            0 <= k < insert_by_date(sorted, row).len() ==> #[trigger] insert_by_date(sorted, row)[k] == row || exists|
                i: int,
            | 0 <= i < sorted.len() && insert_by_date(sorted, row)[k] == #[trigger] sorted[i],
    decreases sorted.len(),
{
    broadcast use vstd::seq_lib::group_to_multiset_ensures;

    let ins = insert_by_date(sorted, row);
    if sorted.len() == 0 {
        assert(seq![row] =~= Seq::<CargoFlowRowView>::empty().push(row));
    } else if !text_lt(sorted.last().date, row.date) {
        assert forall|k: int| 0 <= k < ins.len() implies #[trigger] ins[k] == row || exists|i: int|
            0 <= i < sorted.len() && ins[k] == #[trigger] sorted[i] by {
            if k < sorted.len() {
                assert(ins[k] == sorted[k]);
            }
        }
    } else {
        let rest = sorted.drop_last();
        lemma_insert_by_date_elements(rest, row);
        let inner = insert_by_date(rest, row);
        assert(sorted =~= rest.push(sorted.last()));
        assert forall|k: int| 0 <= k < ins.len() implies #[trigger] ins[k] == row || exists|i: int|
            0 <= i < sorted.len() && ins[k] == #[trigger] sorted[i] by {
            if k < inner.len() {
                assert(ins[k] == inner[k]);
                if inner[k] != row {
                    let i = choose|i: int| 0 <= i < rest.len() && inner[k] == #[trigger] rest[i];
                    assert(rest[i] == sorted[i]);
                }
            } else {
                assert(ins[k] == sorted[sorted.len() - 1]);
            }
        }
    }
}

proof fn lemma_insert_by_date_sorted(sorted: Seq<CargoFlowRowView>, row: CargoFlowRowView)
    requires
        newest_first(sorted),
    ensures
        newest_first(insert_by_date(sorted, row)),
    decreases sorted.len(),
{
    let ins = insert_by_date(sorted, row);
    if sorted.len() == 0 {
    } else if !text_lt(sorted.last().date, row.date) {
        let n = sorted.len() - 1;
        assert(sorted.last() == sorted[n]);
        assert forall|i: int, j: int| 0 <= i < j < ins.len() implies !text_lt(
            #[trigger] ins[i].date,
            #[trigger] ins[j].date,
        ) by {
            assert(ins[i] == sorted[i]);
            if j < sorted.len() {
                assert(ins[j] == sorted[j]);
            } else {
                if i < n {
                    lemma_not_older_chain(sorted[i].date, sorted[n].date, row.date);
                }
            }
        }
    } else {
        let n = sorted.len() - 1;
        let rest = sorted.drop_last();
        assert forall|i: int, j: int| 0 <= i < j < rest.len() implies !text_lt(
            #[trigger] rest[i].date,
            #[trigger] rest[j].date,
        ) by {
            assert(rest[i] == sorted[i] && rest[j] == sorted[j]);
        }
        lemma_insert_by_date_sorted(rest, row);
        lemma_insert_by_date_elements(rest, row);
        let inner = insert_by_date(rest, row);
        assert(sorted.last() == sorted[n]);
        lemma_text_lt_total(sorted[n].date, row.date);
        assert forall|i: int, j: int| 0 <= i < j < ins.len() implies !text_lt(
            #[trigger] ins[i].date,
            #[trigger] ins[j].date,
        ) by {
            assert(ins[i] == inner[i]);
            if j < inner.len() {
                assert(ins[j] == inner[j]);
            } else {
                assert(ins[j] == sorted[n]);
                if inner[i] != row {
                    let m = choose|m: int| 0 <= m < rest.len() && inner[i] == #[trigger] rest[m];
                    assert(rest[m] == sorted[m]);
                }
            }
        }
    }
}

proof fn lemma_sort_by_date(rows: Seq<CargoFlowRowView>)
    ensures
        newest_first(sort_by_date(rows)),
        sort_by_date(rows).to_multiset() == rows.to_multiset(),
        sort_by_date(rows).len() == rows.len(),
    decreases rows.len(),
{
    broadcast use vstd::seq_lib::group_to_multiset_ensures;

    if rows.len() > 0 {
        lemma_sort_by_date(rows.drop_last());
        lemma_insert_by_date_sorted(sort_by_date(rows.drop_last()), rows.last());
        lemma_insert_by_date_elements(sort_by_date(rows.drop_last()), rows.last());
        assert(rows =~= rows.drop_last().push(rows.last()));
    } else {
        assert(rows.to_multiset() =~= Seq::<CargoFlowRowView>::empty().to_multiset());
    }
}

/// Ordering the cargo flow by date keeps every row, each as often as before, and
/// puts no row before a row of a newer date.
pub proof fn law_sort_by_date_orders_newest_first(rows: Seq<CargoFlowRowView>)
    ensures
        sort_by_date(rows).to_multiset() == rows.to_multiset(),
        forall|i: int, j: int|
            0 <= i < j < sort_by_date(rows).len() ==> !text_lt(
                #[trigger] sort_by_date(rows)[i].date,
                #[trigger] sort_by_date(rows)[j].date,
            ),
{
    lemma_sort_by_date(rows);
}

/// A page of `per_page` rows is the window of the rows that starts after the
/// earlier pages: at most `per_page` rows, the `i`th of them the row at
/// `(page - 1) * per_page + i`, and none when that start is past the end.
pub proof fn law_page_is_window(rows: Seq<CargoFlowRowView>, page: u64, per_page: u64)
    requires
        page >= 1,
    ensures
        page_of(rows, page, per_page).len() == (if (page - 1) * per_page >= rows.len() {
            0
        } else if (page - 1) * per_page + per_page <= rows.len() {
            per_page as int
        } else {
            rows.len() - (page - 1) * per_page
        }),
        forall|i: int|
            0 <= i < page_of(rows, page, per_page).len() ==> #[trigger] page_of(rows, page, per_page)[i] == rows[(
            page - 1) * per_page + i],
{
    assert((page - 1) * per_page >= 0) by (nonlinear_arith)
        requires
            page >= 1,
    ;
}

/// Every row of a cargo flow page is a row of the whole flow, no row of the page
/// is older than a row after it, and a page holds at most `per_page` rows; the
/// first page of a size that fits the whole flow holds every row of it, each as
/// often as in the flow.
pub proof fn law_cargo_flow_page_is_sorted_window(
    src: CargoFlowSources,
    flow_type: Option<FlowType>,
    operation: Option<Seq<char>>,
    status: Option<PipelineStatus>,
    contractor_id: Option<u128>,
    page: u64,
    per_page: u64,
)
    requires
        page >= 1,
    ensures
        spec_cargo_flow_page(src, flow_type, operation, status, contractor_id, page, per_page).len() <= per_page,
        forall|i: int|
            0 <= i < spec_cargo_flow_page(src, flow_type, operation, status, contractor_id, page, per_page).len()
                ==> spec_cargo_flow_all(src, flow_type, operation, status, contractor_id).contains(
                #[trigger] spec_cargo_flow_page(src, flow_type, operation, status, contractor_id, page, per_page)[i],
            ),
        forall|i: int, j: int|
            0 <= i < j < spec_cargo_flow_page(src, flow_type, operation, status, contractor_id, page, per_page).len()
                ==> !text_lt(
                #[trigger] spec_cargo_flow_page(src, flow_type, operation, status, contractor_id, page, per_page)[i].date,
                #[trigger] spec_cargo_flow_page(src, flow_type, operation, status, contractor_id, page, per_page)[j].date,
            ),
        page == 1 && spec_cargo_flow_all(src, flow_type, operation, status, contractor_id).len() <= per_page
            ==> spec_cargo_flow_page(src, flow_type, operation, status, contractor_id, page, per_page).to_multiset()
            == spec_cargo_flow_all(src, flow_type, operation, status, contractor_id).to_multiset(),
{
    broadcast use vstd::seq_lib::group_to_multiset_ensures;

    let all = spec_cargo_flow_all(src, flow_type, operation, status, contractor_id);
    let sorted = sort_by_date(all);
    let pg = spec_cargo_flow_page(src, flow_type, operation, status, contractor_id, page, per_page);
    lemma_sort_by_date(all);
    law_page_is_window(sorted, page, per_page);
    let start = (page - 1) * per_page;
    assert forall|i: int| 0 <= i < pg.len() implies all.contains(#[trigger] pg[i]) by {
        assert(pg[i] == sorted[start + i]);
        assert(sorted.to_multiset().count(sorted[start + i]) > 0);
    }
    assert forall|i: int, j: int| 0 <= i < j < pg.len() implies !text_lt(
        #[trigger] pg[i].date,
        #[trigger] pg[j].date,
    ) by {
        assert(pg[i] == sorted[start + i] && pg[j] == sorted[start + j]);
    }
    if page == 1 && all.len() <= per_page {
        assert((page - 1) * per_page == 0) by (nonlinear_arith)
            requires
                page == 1,
        ;
        assert(pg =~= sorted);
    }
}

// ---------------------------------------------------------------------------
// The filters of the cargo flow
// ---------------------------------------------------------------------------

/// Whether a cargo flow row is of the filtered flow type, operation, pipeline
/// status and contractor.
pub open spec fn row_passes_filters(
    r: CargoFlowRowView,
    flow_type: Option<FlowType>,
    operation: Option<Seq<char>>,
    status: Option<PipelineStatus>,
    contractor_id: Option<u128>,
) -> bool {
    &&& (flow_type matches Some(f) ==> r.flow_type == f)
    &&& (operation matches Some(o) ==> r.operation == o)
    &&& (status matches Some(st) ==> r.status == st)
    &&& (contractor_id matches Some(c) ==> r.contractor_id == Some(c))
}

/// Whether every row passes the filters.
pub open spec fn all_pass_filters(
    rows: Seq<CargoFlowRowView>,
    flow_type: Option<FlowType>,
    operation: Option<Seq<char>>,
    status: Option<PipelineStatus>,
    contractor_id: Option<u128>,
) -> bool {
    forall|i: int| 0 <= i < rows.len() ==> row_passes_filters(#[trigger] rows[i], flow_type, operation, status, contractor_id)
}

proof fn lemma_all_pass_concat(
    a: Seq<CargoFlowRowView>,
    b: Seq<CargoFlowRowView>,
    flow_type: Option<FlowType>,
    operation: Option<Seq<char>>,
    status: Option<PipelineStatus>,
    contractor_id: Option<u128>,
)
    requires
        all_pass_filters(a, flow_type, operation, status, contractor_id),
        all_pass_filters(b, flow_type, operation, status, contractor_id),
    ensures
        all_pass_filters(a + b, flow_type, operation, status, contractor_id),
{
    assert forall|i: int| 0 <= i < (a + b).len() implies row_passes_filters(
        #[trigger] (a + b)[i],
        flow_type,
        operation,
        status,
        contractor_id,
    ) by {
        if i < a.len() {
            assert((a + b)[i] == a[i]);
        } else {
            assert((a + b)[i] == b[i - a.len()]);
        }
    }
}

proof fn lemma_parts_pass_filters(
    src: CargoFlowSources,
    flow_type: Option<FlowType>,
    operation: Option<Seq<char>>,
    status: Option<PipelineStatus>,
    contractor_id: Option<u128>,
)
    ensures
        all_pass_filters(
            part_if(
                flow_passes(flow_type, FlowType::Outgoing),
                spec_dispatch_flow_rows(src.dispatches@, operation, status, contractor_id),
            ),
            flow_type,
            operation,
            status,
            contractor_id,
        ),
        all_pass_filters(
            part_if(
                flow_passes(flow_type, FlowType::Incoming),
                spec_acceptance_flow_rows(src.acceptances@, operation, status, contractor_id),
            ),
            flow_type,
            operation,
            status,
            contractor_id,
        ),
        all_pass_filters(
            part_if(
                flow_passes(flow_type, FlowType::Incoming) && status_passes(status, PipelineStatus::Pending),
                spec_pending_waybill_rows(src.truck_waybills@, src.rail_waybills@, operation, contractor_id),
            ),
            flow_type,
            operation,
            status,
            contractor_id,
        ),
        all_pass_filters(
            part_if(
                flow_passes(flow_type, FlowType::Internal) && text_filter_passes(operation, "Blending"@),
                spec_blending_flow_rows(src.blendings@, status, contractor_id),
            ),
            flow_type,
            operation,
            status,
            contractor_id,
        ),
        all_pass_filters(
            part_if(
                flow_passes(flow_type, FlowType::Internal) && text_filter_passes(operation, "Physical Transfer"@),
                spec_line_flow_rows(src.physical_transfers@, LineFlowKind::PhysicalTransfer, status, contractor_id),
            ),
            flow_type,
            operation,
            status,
            contractor_id,
        ),
        all_pass_filters(
            part_if(
                flow_passes(flow_type, FlowType::Internal) && text_filter_passes(operation, "Ownership Transfer"@),
                spec_line_flow_rows(src.ownership_transfers@, LineFlowKind::OwnershipTransfer, status, contractor_id),
            ),
            flow_type,
            operation,
            status,
            contractor_id,
        ),
        all_pass_filters(
            part_if(
                flow_passes(flow_type, FlowType::Internal) && text_filter_passes(
                    operation,
                    "Inventory Reconciliation"@,
                ),
                spec_line_flow_rows(src.reconciliations@, LineFlowKind::Reconciliation, status, contractor_id),
            ),
            flow_type,
            operation,
            status,
            contractor_id,
        ),
{
    let dispatches = spec_dispatch_flow_rows(src.dispatches@, operation, status, contractor_id);
    law_dispatch_rows_list_filtered_dispatches(src.dispatches@, operation, status, contractor_id);
    if flow_passes(flow_type, FlowType::Outgoing) {
        assert forall|i: int| 0 <= i < dispatches.len() implies row_passes_filters(
            #[trigger] dispatches[i],
            flow_type,
            operation,
            status,
            contractor_id,
        ) by {
            let k = choose|k: int|
                #![trigger src.dispatches@[k]]
                0 <= k < src.dispatches@.len() && {
                    let r = dispatches[i];
                    let d = src.dispatches@[k];
                    &&& r.id == d.id
                    &&& r.flow_type == FlowType::Outgoing
                    &&& r.entity_type == FlowEntityType::Dispatch
                    &&& r.contractor_id == Some(d.contractor_id)
                    &&& r.status == pipeline_status_of(Some(d.status))
                    &&& r.quantity == (match d.first_item {
                        Some(l) => Some(l.amount),
                        None => None,
                    })
                    &&& (contractor_id matches Some(c) ==> d.contractor_id == c)
                    &&& status_passes(status, pipeline_status_of(Some(d.status)))
                    &&& (operation matches Some(o) ==> o == r.operation)
                };
        }
    }
    let acceptances = spec_acceptance_flow_rows(src.acceptances@, operation, status, contractor_id);
    law_acceptance_rows_name_waybill_sender(src.acceptances@, operation, status, contractor_id);
    if flow_passes(flow_type, FlowType::Incoming) {
        assert forall|i: int| 0 <= i < acceptances.len() implies row_passes_filters(
            #[trigger] acceptances[i],
            flow_type,
            operation,
            status,
            contractor_id,
        ) by {
            assert(acceptances[i] == spec_acceptance_flow_rows(src.acceptances@, operation, status, contractor_id)[i]);
        }
    }
    law_pending_rows_are_waybills_without_acceptance(src.truck_waybills@, false, contractor_id);
    law_pending_rows_are_waybills_without_acceptance(src.rail_waybills@, true, contractor_id);
    let truck_part = if text_filter_passes(operation, "Truck Receipt"@) {
        spec_pending_rows(src.truck_waybills@, false, contractor_id)
    } else {
        Seq::empty()
    };
    let rail_part = if text_filter_passes(operation, "Rail Receipt"@) {
        spec_pending_rows(src.rail_waybills@, true, contractor_id)
    } else {
        Seq::empty()
    };
    if flow_passes(flow_type, FlowType::Incoming) && status_passes(status, PipelineStatus::Pending) {
        assert forall|i: int| 0 <= i < truck_part.len() implies row_passes_filters(
            #[trigger] truck_part[i],
            flow_type,
            operation,
            status,
            contractor_id,
        ) by {
            assert(truck_part[i] == spec_pending_rows(src.truck_waybills@, false, contractor_id)[i]);
        }
        assert forall|i: int| 0 <= i < rail_part.len() implies row_passes_filters(
            #[trigger] rail_part[i],
            flow_type,
            operation,
            status,
            contractor_id,
        ) by {
            assert(rail_part[i] == spec_pending_rows(src.rail_waybills@, true, contractor_id)[i]);
        }
        lemma_all_pass_concat(truck_part, rail_part, flow_type, operation, status, contractor_id);
        assert(spec_pending_waybill_rows(src.truck_waybills@, src.rail_waybills@, operation, contractor_id)
            == truck_part + rail_part);
    }
    let blendings = spec_blending_flow_rows(src.blendings@, status, contractor_id);
    law_blending_rows_list_filtered_blendings(src.blendings@, status, contractor_id);
    if flow_passes(flow_type, FlowType::Internal) && text_filter_passes(operation, "Blending"@) {
        assert forall|i: int| 0 <= i < blendings.len() implies row_passes_filters(
            #[trigger] blendings[i],
            flow_type,
            operation,
            status,
            contractor_id,
        ) by {
            assert(blendings[i] == spec_blending_flow_rows(src.blendings@, status, contractor_id)[i]);
        }
    }
    lemma_line_part_passes(src.physical_transfers@, LineFlowKind::PhysicalTransfer, flow_type, operation, status, contractor_id);
    lemma_line_part_passes(src.ownership_transfers@, LineFlowKind::OwnershipTransfer, flow_type, operation, status, contractor_id);
    lemma_line_part_passes(src.reconciliations@, LineFlowKind::Reconciliation, flow_type, operation, status, contractor_id);
}

/// The operation of a kind of document with a first line, as listed.
pub open spec fn line_kind_operation(kind: LineFlowKind) -> Seq<char> {
    match kind {
        LineFlowKind::PhysicalTransfer => "Physical Transfer"@,
        LineFlowKind::OwnershipTransfer => "Ownership Transfer"@,
        LineFlowKind::Reconciliation => "Inventory Reconciliation"@,
    }
}

proof fn lemma_line_part_passes(
    docs: Seq<LoadedLineFlow>,
    kind: LineFlowKind,
    flow_type: Option<FlowType>,
    operation: Option<Seq<char>>,
    status: Option<PipelineStatus>,
    contractor_id: Option<u128>,
)
    ensures
        all_pass_filters(
            part_if(
                flow_passes(flow_type, FlowType::Internal) && text_filter_passes(operation, line_kind_operation(kind)),
                spec_line_flow_rows(docs, kind, status, contractor_id),
            ),
            flow_type,
            operation,
            status,
            contractor_id,
        ),
{
    let rows = spec_line_flow_rows(docs, kind, status, contractor_id);
    law_line_rows_list_filtered_documents(docs, kind, status, contractor_id);
    if flow_passes(flow_type, FlowType::Internal) && text_filter_passes(operation, line_kind_operation(kind)) {
        assert forall|i: int| 0 <= i < rows.len() implies row_passes_filters(
            #[trigger] rows[i],
            flow_type,
            operation,
            status,
            contractor_id,
        ) by {
            assert(rows[i] == spec_line_flow_rows(docs, kind, status, contractor_id)[i]);
        }
    }
}

proof fn lemma_cargo_flow_all_passes(
    src: CargoFlowSources,
    flow_type: Option<FlowType>,
    operation: Option<Seq<char>>,
    status: Option<PipelineStatus>,
    contractor_id: Option<u128>,
)
    ensures
        all_pass_filters(
            spec_cargo_flow_all(src, flow_type, operation, status, contractor_id),
            flow_type,
            operation,
            status,
            contractor_id,
        ),
{
    lemma_parts_pass_filters(src, flow_type, operation, status, contractor_id);
    let p1 = part_if(
        flow_passes(flow_type, FlowType::Outgoing),
        spec_dispatch_flow_rows(src.dispatches@, operation, status, contractor_id),
    );
    let p2 = part_if(
        flow_passes(flow_type, FlowType::Incoming),
        spec_acceptance_flow_rows(src.acceptances@, operation, status, contractor_id),
    );
    let p3 = part_if(
        flow_passes(flow_type, FlowType::Incoming) && status_passes(status, PipelineStatus::Pending),
        spec_pending_waybill_rows(src.truck_waybills@, src.rail_waybills@, operation, contractor_id),
    );
    let p4 = part_if(
        flow_passes(flow_type, FlowType::Internal) && text_filter_passes(operation, "Blending"@),
        spec_blending_flow_rows(src.blendings@, status, contractor_id),
    );
    let p5 = part_if(
        flow_passes(flow_type, FlowType::Internal) && text_filter_passes(operation, "Physical Transfer"@),
        spec_line_flow_rows(src.physical_transfers@, LineFlowKind::PhysicalTransfer, status, contractor_id),
    );
    let p6 = part_if(
        flow_passes(flow_type, FlowType::Internal) && text_filter_passes(operation, "Ownership Transfer"@),
        spec_line_flow_rows(src.ownership_transfers@, LineFlowKind::OwnershipTransfer, status, contractor_id),
    );
    let p7 = part_if(
        flow_passes(flow_type, FlowType::Internal) && text_filter_passes(operation, "Inventory Reconciliation"@),
        spec_line_flow_rows(src.reconciliations@, LineFlowKind::Reconciliation, status, contractor_id),
    );
    lemma_all_pass_concat(p1, p2, flow_type, operation, status, contractor_id);
    lemma_all_pass_concat(p1 + p2, p3, flow_type, operation, status, contractor_id);
    lemma_all_pass_concat(p1 + p2 + p3, p4, flow_type, operation, status, contractor_id);
    lemma_all_pass_concat(p1 + p2 + p3 + p4, p5, flow_type, operation, status, contractor_id);
    lemma_all_pass_concat(p1 + p2 + p3 + p4 + p5, p6, flow_type, operation, status, contractor_id);
    lemma_all_pass_concat(p1 + p2 + p3 + p4 + p5 + p6, p7, flow_type, operation, status, contractor_id);
}

/// Every row of the cargo flow, and so of each of its pages, is of the filtered
/// flow type, operation, pipeline status and contractor.
pub proof fn law_cargo_flow_rows_pass_filters(
    src: CargoFlowSources,
    flow_type: Option<FlowType>,
    operation: Option<Seq<char>>,
    status: Option<PipelineStatus>,
    contractor_id: Option<u128>,
    page: u64,
    per_page: u64,
)
    requires
        page >= 1,
    ensures
        forall|i: int|
            0 <= i < spec_cargo_flow_all(src, flow_type, operation, status, contractor_id).len() ==> {
                let r = #[trigger] spec_cargo_flow_all(src, flow_type, operation, status, contractor_id)[i];
                &&& (flow_type matches Some(f) ==> r.flow_type == f)
                &&& (operation matches Some(o) ==> r.operation == o)
                &&& (status matches Some(st) ==> r.status == st)
                &&& (contractor_id matches Some(c) ==> r.contractor_id == Some(c))
            },
        forall|i: int|
            0 <= i < spec_cargo_flow_page(src, flow_type, operation, status, contractor_id, page, per_page).len() ==> {
                let r = #[trigger] spec_cargo_flow_page(src, flow_type, operation, status, contractor_id, page, per_page)[i];
                &&& (flow_type matches Some(f) ==> r.flow_type == f)
                &&& (operation matches Some(o) ==> r.operation == o)
                &&& (status matches Some(st) ==> r.status == st)
                &&& (contractor_id matches Some(c) ==> r.contractor_id == Some(c))
            },
{
    let all = spec_cargo_flow_all(src, flow_type, operation, status, contractor_id);
    lemma_cargo_flow_all_passes(src, flow_type, operation, status, contractor_id);
    assert forall|i: int| 0 <= i < all.len() implies row_passes_filters(
        #[trigger] all[i],
        flow_type,
        operation,
        status,
        contractor_id,
    ) by {}
    let pg = spec_cargo_flow_page(src, flow_type, operation, status, contractor_id, page, per_page);
    law_cargo_flow_page_is_sorted_window(src, flow_type, operation, status, contractor_id, page, per_page);
    assert forall|i: int| 0 <= i < pg.len() implies row_passes_filters(
        #[trigger] pg[i],
        flow_type,
        operation,
        status,
        contractor_id,
    ) by {
        assert(all.contains(pg[i]));
        let m = choose|m: int| 0 <= m < all.len() && all[m] == pg[i];
        assert(row_passes_filters(all[m], flow_type, operation, status, contractor_id));
    }
}

/// Whether a row is of the given date.
pub open spec fn dated(d: Seq<char>) -> spec_fn(CargoFlowRowView) -> bool {
    |r: CargoFlowRowView| r.date == d
}

proof fn lemma_insert_by_date_keeps_ties(sorted: Seq<CargoFlowRowView>, row: CargoFlowRowView, d: Seq<char>)
    ensures
        insert_by_date(sorted, row).filter(dated(d)) == (if row.date == d {
            sorted.filter(dated(d)).push(row)
        } else {
            sorted.filter(dated(d))
        }),
    decreases sorted.len(),
{
    reveal(Seq::filter);
    let ins = insert_by_date(sorted, row);
    if sorted.len() == 0 {
        assert(ins.drop_last() =~= sorted);
    } else if !text_lt(sorted.last().date, row.date) {
        assert(ins.drop_last() =~= sorted);
        assert(ins.last() == row);
    } else {
        let rest = sorted.drop_last();
        let last = sorted.last();
        lemma_insert_by_date_keeps_ties(rest, row, d);
        assert(ins.drop_last() =~= insert_by_date(rest, row));
        assert(ins.last() == last);
        lemma_text_lt_irreflexive(row.date);
        if row.date == d {
            assert(last.date != d);
        }
    }
}

/// Ordering the cargo flow by date is stable: the rows of any one date come in
/// the order they had before.
pub proof fn law_sort_by_date_is_stable(rows: Seq<CargoFlowRowView>, d: Seq<char>)
    ensures
        sort_by_date(rows).filter(dated(d)) == rows.filter(dated(d)),
    decreases rows.len(),
{
    reveal(Seq::filter);
    if rows.len() > 0 {
        law_sort_by_date_is_stable(rows.drop_last(), d);
        lemma_insert_by_date_keeps_ties(sort_by_date(rows.drop_last()), rows.last(), d);
    }
}

} // verus!
