//! Pipeline listings: each basis document (a waybill, or a truck dispatch) with
//! the document that acts on it, its declared quantity, the quantity actually
//! handled, and the resulting pipeline status.
use vstd::prelude::*;

use crate::enums::{pipeline_status_of, DocumentStatus, PipelineStatus};
use crate::flat_rows::{name_or, name_or_empty, opt_text};
use crate::quantity::{all_fit, spec_total, total, Quantity};

verus! {

// ---------------------------------------------------------------------------
// Sums of quantities
// ---------------------------------------------------------------------------

/// The decimal sum of the quantities, folded from zero as `Iterator::sum` does:
/// none where an addition overflows.
pub fn total_quantity(amounts: &Vec<Quantity>) -> (res: Option<Quantity>)
    requires
        all_fit(amounts@),
    ensures
        res == spec_total(amounts@),
        res matches Some(t) ==> t.fits(),
{
    total(amounts)
}

/// A total above zero, or nothing.
pub open spec fn positive_total(total: Option<Quantity>) -> Option<Quantity> {
    match total {
        Some(t) => if t.value() > 0 {
            Some(t)
        } else {
            None
        },
        None => None,
    }
}

// ---------------------------------------------------------------------------
// Receipt pipelines (truck and rail waybills)
// ---------------------------------------------------------------------------

/// A declared line of a waybill (a truck waybill item or a wagon manifest) as
/// loaded with its product's name.
#[derive(Debug, Clone)]
pub struct DeclaredLine {
    pub product_name: Option<String>,
    pub declared_quantity: Quantity,
}

/// An acceptance document linked to a waybill, with the accepted amounts of
/// its items.
#[derive(Debug, Clone)]
pub struct LinkedAcceptance {
    pub id: u128,
    pub document_number: String,
    pub status: DocumentStatus,
    pub accepted_amounts: Vec<Quantity>,
}

/// A waybill as loaded with its sender's name, its declared lines and the
/// acceptance documents linked to it, each in load order.
#[derive(Debug, Clone)]
pub struct LoadedWaybill {
    pub id: u128,
    pub document_number: String,
    pub date: String,
    pub sender_id: u128,
    pub sender_name: Option<String>,
    pub lines: Vec<DeclaredLine>,
    pub acceptances: Vec<LinkedAcceptance>,
}

/// One row of a receipt pipeline.
#[derive(Debug, Clone)]
pub struct ReceiptPipelineRow {
    pub id: u128,
    pub basis_document_number: String,
    pub basis_date: String,
    pub contractor_id: u128,
    pub contractor_name: String,
    pub product_name: Option<String>,
    pub expected_quantity: Option<Quantity>,
    pub action_id: Option<u128>,
    pub action_document_number: Option<String>,
    pub actual_quantity: Option<Quantity>,
    pub pipeline_status: PipelineStatus,
}

/// A receipt pipeline row with its texts as character sequences.
pub struct ReceiptPipelineRowView {
    pub id: u128,
    pub basis_document_number: Seq<char>,
    pub basis_date: Seq<char>,
    pub contractor_id: u128,
    pub contractor_name: Seq<char>,
    pub product_name: Option<Seq<char>>,
    pub expected_quantity: Option<Quantity>,
    pub action_id: Option<u128>,
    pub action_document_number: Option<Seq<char>>,
    pub actual_quantity: Option<Quantity>,
    pub pipeline_status: PipelineStatus,
}

impl View for ReceiptPipelineRow {
    type V = ReceiptPipelineRowView;

    open spec fn view(&self) -> ReceiptPipelineRowView {
        ReceiptPipelineRowView {
            id: self.id,
            basis_document_number: self.basis_document_number@,
            basis_date: self.basis_date@,
            contractor_id: self.contractor_id,
            contractor_name: self.contractor_name@,
            product_name: opt_text(self.product_name),
            expected_quantity: self.expected_quantity,
            action_id: self.action_id,
            action_document_number: opt_text(self.action_document_number),
            actual_quantity: self.actual_quantity,
            pipeline_status: self.pipeline_status,
        }
    }
}

/// The views of a sequence of receipt pipeline rows.
pub open spec fn receipt_row_views(rows: Seq<ReceiptPipelineRow>) -> Seq<ReceiptPipelineRowView> {
    rows.map_values(|r: ReceiptPipelineRow| r@)
}

/// The acceptance that acts on a waybill: the first one linked to it.
pub open spec fn acting_acceptance(wb: LoadedWaybill) -> Option<LinkedAcceptance> {
    if wb.acceptances@.len() > 0 {
        Some(wb.acceptances@[0])
    } else {
        None
    }
}

/// The pipeline status of a waybill: pending without an acceptance, else the
/// status of its acceptance.
pub open spec fn waybill_status(wb: LoadedWaybill) -> PipelineStatus {
    pipeline_status_of(
        match acting_acceptance(wb) {
            Some(a) => Some(a.status),
            None => None,
        },
    )
}

/// The pipeline row of a waybill: its first declared line gives the product and
/// the expected quantity; the acceptance's accepted amounts, when their sum is
/// positive, give the actual quantity.
pub open spec fn receipt_row_of(wb: LoadedWaybill) -> ReceiptPipelineRowView {
    let first = if wb.lines@.len() > 0 {
        Some(wb.lines@[0])
    } else {
        None
    };
    let acc = acting_acceptance(wb);
    ReceiptPipelineRowView {
        id: wb.id,
        basis_document_number: wb.document_number@,
        basis_date: wb.date@,
        contractor_id: wb.sender_id,
        contractor_name: name_or(wb.sender_name, Seq::empty()),
        product_name: match first {
            Some(l) => opt_text(l.product_name),
            None => None,
        },
        expected_quantity: match first {
            Some(l) => Some(l.declared_quantity),
            None => None,
        },
        action_id: match acc {
            Some(a) => Some(a.id),
            None => None,
        },
        action_document_number: match acc {
            Some(a) => Some(a.document_number@),
            None => None,
        },
        actual_quantity: match acc {
            Some(a) => positive_total(spec_total(a.accepted_amounts@)),
            None => None,
        },
        pipeline_status: waybill_status(wb),
    }
}

/// Whether a pipeline status passes an optional status filter.
pub open spec fn status_passes(filter: Option<PipelineStatus>, status: PipelineStatus) -> bool {
    match filter {
        Some(f) => f == status,
        None => true,
    }
}

/// The receipt pipeline of the given waybills: one row per waybill whose status
/// passes the filter, in their order.
pub open spec fn receipt_pipeline(waybills: Seq<LoadedWaybill>, filter: Option<PipelineStatus>) -> Seq<
    ReceiptPipelineRowView,
>
    decreases waybills.len(),
{
    if waybills.len() == 0 {
        Seq::empty()
    } else {
        let prev = receipt_pipeline(waybills.drop_last(), filter);
        if status_passes(filter, waybill_status(waybills.last())) {
            prev.push(receipt_row_of(waybills.last()))
        } else {
            prev
        }
    }
}

/// The pipeline status of a waybill.
pub fn waybill_pipeline_status(wb: &LoadedWaybill) -> (res: PipelineStatus)
    ensures
        res == waybill_status(*wb),
{
    if wb.acceptances.len() > 0 {
        PipelineStatus::from_doc_status(Some(&wb.acceptances[0].status))
    } else {
        PipelineStatus::from_doc_status(None)
    }
}

/// The quantities of a waybill's acceptances are decimals.
pub open spec fn waybill_fits(wb: LoadedWaybill) -> bool {
    forall|k: int| 0 <= k < wb.acceptances@.len() ==> all_fit(#[trigger] wb.acceptances@[k].accepted_amounts@)
}

/// Whether the decimal sum of the acting acceptance's amounts can be formed.
pub open spec fn receipt_total_defined(wb: LoadedWaybill) -> bool {
    match acting_acceptance(wb) {
        Some(a) => spec_total(a.accepted_amounts@) is Some,
        None => true,
    }
}

/// The pipeline row of a waybill.
pub fn receipt_pipeline_row(wb: &LoadedWaybill) -> (res: ReceiptPipelineRow)
    requires
        waybill_fits(*wb),
        receipt_total_defined(*wb),
    ensures
        res@ == receipt_row_of(*wb),
{
    let status = waybill_pipeline_status(wb);
    let (product_name, expected_quantity) = if wb.lines.len() > 0 {
        (wb.lines[0].product_name.clone(), Some(wb.lines[0].declared_quantity))
    } else {
        (None, None)
    };
    let (action_id, action_document_number, actual_quantity) = if wb.acceptances.len() > 0 {
        let acc = &wb.acceptances[0];
        assert(all_fit(wb.acceptances@[0].accepted_amounts@));
        let actual = match total_quantity(&acc.accepted_amounts) {
            Some(t) => if t.is_positive() {
                Some(t)
            } else {
                None
            },
            None => None,
        };
        (Some(acc.id), Some(acc.document_number.clone()), actual)
    } else {
        (None, None, None)
    };
    ReceiptPipelineRow {
        id: wb.id,
        basis_document_number: wb.document_number.clone(),
        basis_date: wb.date.clone(),
        contractor_id: wb.sender_id,
        contractor_name: name_or_empty(&wb.sender_name),
        product_name,
        expected_quantity,
        action_id,
        action_document_number,
        actual_quantity,
        pipeline_status: status,
    }
}

/// Whether the actual quantity of every waybill that passes the filter can be
/// formed.
pub open spec fn receipts_defined(waybills: Seq<LoadedWaybill>, filter: Option<PipelineStatus>) -> bool {
    forall|k: int|
        0 <= k < waybills.len() && status_passes(filter, waybill_status(#[trigger] waybills[k]))
            ==> receipt_total_defined(waybills[k])
}

/// The receipt pipeline of a page of waybills, or none where the decimal sum of
/// the accepted amounts of a listed waybill overflows.
pub fn checked_receipt_pipeline_rows(waybills: &Vec<LoadedWaybill>, filter: Option<PipelineStatus>) -> (res: Option<
    Vec<ReceiptPipelineRow>,
>)
    requires
        forall|k: int| 0 <= k < waybills@.len() ==> waybill_fits(#[trigger] waybills@[k]),
    ensures
        res is None <==> !receipts_defined(waybills@, filter),
        res matches Some(v) ==> receipt_row_views(v@) == receipt_pipeline(waybills@, filter),
{
    let mut i: usize = 0;
    while i < waybills.len()
        invariant
            i <= waybills.len(),
            forall|k: int| 0 <= k < waybills@.len() ==> waybill_fits(#[trigger] waybills@[k]),
            forall|k: int|
                0 <= k < i && status_passes(filter, waybill_status(#[trigger] waybills@[k]))
                    ==> receipt_total_defined(waybills@[k]),
        decreases waybills.len() - i,
    {
        let wb = &waybills[i];
        let status = waybill_pipeline_status(wb);
        let passes = match filter {
            Some(f) => f == status,
            None => true,
        };
        if passes && wb.acceptances.len() > 0 {
            assert(all_fit(wb.acceptances@[0].accepted_amounts@));
            if total_quantity(&wb.acceptances[0].accepted_amounts).is_none() {
                return None;
            }
        }
        i = i + 1;
    }
    Some(receipt_pipeline_rows(waybills, filter))
}

/// The receipt pipeline of a page of waybills (truck waybills with their items,
/// or rail waybills with their wagon manifests): one row per waybill whose
/// status passes `filter`, in the order given.
pub fn receipt_pipeline_rows(waybills: &Vec<LoadedWaybill>, filter: Option<PipelineStatus>) -> (res: Vec<
    ReceiptPipelineRow,
>)
    requires
        forall|k: int| 0 <= k < waybills@.len() ==> waybill_fits(#[trigger] waybills@[k]),
        receipts_defined(waybills@, filter),
    ensures
        receipt_row_views(res@) == receipt_pipeline(waybills@, filter),
{
    let mut rows: Vec<ReceiptPipelineRow> = Vec::new();
    let mut i: usize = 0;
    while i < waybills.len()
        invariant
            i <= waybills.len(),
            forall|k: int| 0 <= k < waybills@.len() ==> waybill_fits(#[trigger] waybills@[k]),
            receipts_defined(waybills@, filter),
            receipt_row_views(rows@) == receipt_pipeline(waybills@.take(i as int), filter),
        decreases waybills.len() - i,
    {
        let wb = &waybills[i];
        assert(waybills@.take(i + 1).drop_last() =~= waybills@.take(i as int));
        let status = waybill_pipeline_status(wb);
        let passes = match filter {
            Some(f) => f == status,
            None => true,
        };
        if passes {
            let ghost prev = rows@;
            let row = receipt_pipeline_row(wb);
            rows.push(row);
            assert(receipt_row_views(rows@) =~= receipt_row_views(prev).push(row@));
        }
        i = i + 1;
    }
    assert(waybills@.take(waybills.len() as int) =~= waybills@);
    rows
}

// ---------------------------------------------------------------------------
// Truck dispatch pipeline
// ---------------------------------------------------------------------------

/// A dispatched line as loaded with its product's name.
#[derive(Debug, Clone)]
pub struct DispatchedLine {
    pub product_name: Option<String>,
    pub dispatched_amount: Quantity,
}

/// A truck dispatch document as loaded with its contractor's name and lines.
#[derive(Debug, Clone)]
pub struct LoadedTruckDispatch {
    pub id: u128,
    pub document_number: String,
    pub date: String,
    pub contractor_id: u128,
    pub contractor_name: Option<String>,
    pub status: DocumentStatus,
    pub lines: Vec<DispatchedLine>,
}

/// One row of the truck dispatch pipeline.
#[derive(Debug, Clone)]
pub struct TruckDispatchPipelineRow {
    pub id: u128,
    pub document_number: String,
    pub date: String,
    pub contractor_id: u128,
    pub contractor_name: String,
    pub product_name: Option<String>,
    pub dispatched_quantity: Option<Quantity>,
    pub pipeline_status: PipelineStatus,
}

/// A truck dispatch pipeline row with its texts as character sequences.
pub struct TruckDispatchPipelineRowView {
    pub id: u128,
    pub document_number: Seq<char>,
    pub date: Seq<char>,
    pub contractor_id: u128,
    pub contractor_name: Seq<char>,
    pub product_name: Option<Seq<char>>,
    pub dispatched_quantity: Option<Quantity>,
    pub pipeline_status: PipelineStatus,
}

impl View for TruckDispatchPipelineRow {
    type V = TruckDispatchPipelineRowView;

    open spec fn view(&self) -> TruckDispatchPipelineRowView {
        TruckDispatchPipelineRowView {
            id: self.id,
            document_number: self.document_number@,
            date: self.date@,
            contractor_id: self.contractor_id,
            contractor_name: self.contractor_name@,
            product_name: opt_text(self.product_name),
            dispatched_quantity: self.dispatched_quantity,
            pipeline_status: self.pipeline_status,
        }
    }
}

/// The views of a sequence of truck dispatch pipeline rows.
pub open spec fn dispatch_pipeline_views(rows: Seq<TruckDispatchPipelineRow>) -> Seq<
    TruckDispatchPipelineRowView,
> {
    rows.map_values(|r: TruckDispatchPipelineRow| r@)
}

/// The amounts of the given dispatched lines.
pub open spec fn dispatched_amounts(lines: Seq<DispatchedLine>) -> Seq<Quantity> {
    lines.map_values(|l: DispatchedLine| l.dispatched_amount)
}

/// The pipeline row of a truck dispatch: its first line gives the product, the
/// sum of its lines, when positive, the dispatched quantity.
pub open spec fn dispatch_pipeline_row_of(d: LoadedTruckDispatch) -> TruckDispatchPipelineRowView {
    TruckDispatchPipelineRowView {
        id: d.id,
        document_number: d.document_number@,
        date: d.date@,
        contractor_id: d.contractor_id,
        contractor_name: name_or(d.contractor_name, Seq::empty()),
        product_name: if d.lines@.len() > 0 {
            opt_text(d.lines@[0].product_name)
        } else {
            None
        },
        dispatched_quantity: positive_total(spec_total(dispatched_amounts(d.lines@))),
        pipeline_status: pipeline_status_of(Some(d.status)),
    }
}

/// The truck dispatch pipeline of the given dispatches: nothing for the pending
/// status, which a dispatch never has; otherwise one row per dispatch whose
/// status passes the filter, in their order.
pub open spec fn truck_dispatch_pipeline(docs: Seq<LoadedTruckDispatch>, filter: Option<PipelineStatus>) -> Seq<
    TruckDispatchPipelineRowView,
>
    decreases docs.len(),
{
    if docs.len() == 0 {
        Seq::empty()
    } else {
        let prev = truck_dispatch_pipeline(docs.drop_last(), filter);
        if status_passes(filter, pipeline_status_of(Some(docs.last().status))) {
            prev.push(dispatch_pipeline_row_of(docs.last()))
        } else {
            prev
        }
    }
}

/// The amounts of a dispatch's lines.
fn line_amounts(d: &LoadedTruckDispatch) -> (res: Vec<Quantity>)
    ensures
        res@ == dispatched_amounts(d.lines@),
{
    let mut amounts: Vec<Quantity> = Vec::new();
    let mut i: usize = 0;
    while i < d.lines.len()
        invariant
            i <= d.lines.len(),
            amounts@ == dispatched_amounts(d.lines@.take(i as int)),
        decreases d.lines.len() - i,
    {
        amounts.push(d.lines[i].dispatched_amount);
        assert(dispatched_amounts(d.lines@.take(i + 1)) =~= dispatched_amounts(d.lines@.take(i as int)).push(
            d.lines@[i as int].dispatched_amount,
        ));
        i = i + 1;
    }
    assert(d.lines@.take(d.lines.len() as int) =~= d.lines@);
    amounts
}

/// The quantities of a dispatch's lines are decimals.
pub open spec fn dispatch_fits(d: LoadedTruckDispatch) -> bool {
    all_fit(dispatched_amounts(d.lines@))
}

/// The pipeline row of a truck dispatch.
pub fn truck_dispatch_pipeline_row(d: &LoadedTruckDispatch) -> (res: TruckDispatchPipelineRow)
    requires
        dispatch_fits(*d),
        spec_total(dispatched_amounts(d.lines@)) is Some,
    ensures
        res@ == dispatch_pipeline_row_of(*d),
{
    let amounts = line_amounts(d);
    let dispatched = match total_quantity(&amounts) {
        Some(t) => if t.is_positive() {
            Some(t)
        } else {
            None
        },
        None => None,
    };
    TruckDispatchPipelineRow {
        id: d.id,
        document_number: d.document_number.clone(),
        date: d.date.clone(),
        contractor_id: d.contractor_id,
        contractor_name: name_or_empty(&d.contractor_name),
        product_name: if d.lines.len() > 0 {
            d.lines[0].product_name.clone()
        } else {
            None
        },
        dispatched_quantity: dispatched,
        pipeline_status: PipelineStatus::from_doc_status(Some(&d.status)),
    }
}

/// Whether the dispatched quantity of every dispatch that passes the filter can
/// be formed.
pub open spec fn dispatches_defined(docs: Seq<LoadedTruckDispatch>, filter: Option<PipelineStatus>) -> bool {
    forall|k: int|
        0 <= k < docs.len() && status_passes(filter, pipeline_status_of(Some((#[trigger] docs[k]).status)))
            ==> spec_total(dispatched_amounts(docs[k].lines@)) is Some
}

/// The truck dispatch pipeline of a page of truck dispatches, or none where the
/// decimal sum of the lines of a listed dispatch overflows.
pub fn checked_truck_dispatch_pipeline_rows(docs: &Vec<LoadedTruckDispatch>, filter: Option<PipelineStatus>) -> (res: Option<
    Vec<TruckDispatchPipelineRow>,
>)
    requires
        forall|k: int| 0 <= k < docs@.len() ==> dispatch_fits(#[trigger] docs@[k]),
    ensures
        res is None <==> !dispatches_defined(docs@, filter),
        res matches Some(v) ==> dispatch_pipeline_views(v@) == truck_dispatch_pipeline(docs@, filter),
{
    let mut i: usize = 0;
    while i < docs.len()
        invariant
            i <= docs.len(),
            forall|k: int| 0 <= k < docs@.len() ==> dispatch_fits(#[trigger] docs@[k]),
            forall|k: int|
                0 <= k < i && status_passes(filter, pipeline_status_of(Some((#[trigger] docs@[k]).status)))
                    ==> spec_total(dispatched_amounts(docs@[k].lines@)) is Some,
        decreases docs.len() - i,
    {
        let d = &docs[i];
        let status = PipelineStatus::from_doc_status(Some(&d.status));
        let passes = match filter {
            Some(f) => f == status,
            None => true,
        };
        if passes {
            let amounts = line_amounts(d);
            if total_quantity(&amounts).is_none() {
                return None;
            }
        }
        i = i + 1;
    }
    Some(truck_dispatch_pipeline_rows(docs, filter))
}

/// The truck dispatch pipeline of a page of truck dispatches: one row per
/// dispatch whose status passes `filter`, in the order given. A pending filter
/// selects nothing.
pub fn truck_dispatch_pipeline_rows(docs: &Vec<LoadedTruckDispatch>, filter: Option<PipelineStatus>) -> (res: Vec<
    TruckDispatchPipelineRow,
>)
    requires
        forall|k: int| 0 <= k < docs@.len() ==> dispatch_fits(#[trigger] docs@[k]),
        dispatches_defined(docs@, filter),
    ensures
        dispatch_pipeline_views(res@) == truck_dispatch_pipeline(docs@, filter),
        filter == Some(PipelineStatus::Pending) ==> res@.len() == 0,
{
    let mut rows: Vec<TruckDispatchPipelineRow> = Vec::new();
    let mut i: usize = 0;
    while i < docs.len()
        invariant
            i <= docs.len(),
            forall|k: int| 0 <= k < docs@.len() ==> dispatch_fits(#[trigger] docs@[k]),
            dispatches_defined(docs@, filter),
            dispatch_pipeline_views(rows@) == truck_dispatch_pipeline(docs@.take(i as int), filter),
            filter == Some(PipelineStatus::Pending) ==> rows@.len() == 0,
        decreases docs.len() - i,
    {
        let d = &docs[i];
        assert(docs@.take(i + 1).drop_last() =~= docs@.take(i as int));
        let status = PipelineStatus::from_doc_status(Some(&d.status));
        let passes = match filter {
            Some(f) => f == status,
            None => true,
        };
        if passes {
            let ghost prev = rows@;
            let row = truck_dispatch_pipeline_row(d);
            rows.push(row);
            assert(dispatch_pipeline_views(rows@) =~= dispatch_pipeline_views(prev).push(row@));
        }
        i = i + 1;
    }
    assert(docs@.take(docs.len() as int) =~= docs@);
    rows
}

/// Every row of a receipt pipeline has a status that passes the filter.
pub proof fn law_receipt_rows_pass_filter(waybills: Seq<LoadedWaybill>, filter: Option<PipelineStatus>)
    ensures
        forall|k: int|
            0 <= k < receipt_pipeline(waybills, filter).len() ==> status_passes(
                filter,
                (#[trigger] receipt_pipeline(waybills, filter)[k]).pipeline_status,
            ),
    decreases waybills.len(),
{
    if waybills.len() > 0 {
        law_receipt_rows_pass_filter(waybills.drop_last(), filter);
        let prev = receipt_pipeline(waybills.drop_last(), filter);
        assert forall|k: int| 0 <= k < receipt_pipeline(waybills, filter).len() implies status_passes(
            filter,
            (#[trigger] receipt_pipeline(waybills, filter)[k]).pipeline_status,
        ) by {
            if k < prev.len() {
                assert(receipt_pipeline(waybills, filter)[k] == prev[k]);
            }
        }
    }
}

/// Every row of the truck dispatch pipeline has a status that passes the
/// filter; in particular a pending filter lists nothing.
pub proof fn law_dispatch_rows_pass_filter(docs: Seq<LoadedTruckDispatch>, filter: Option<PipelineStatus>)
    ensures
        forall|k: int|
            0 <= k < truck_dispatch_pipeline(docs, filter).len() ==> status_passes(
                filter,
                (#[trigger] truck_dispatch_pipeline(docs, filter)[k]).pipeline_status,
            ),
        filter == Some(PipelineStatus::Pending) ==> truck_dispatch_pipeline(docs, filter).len() == 0,
    decreases docs.len(),
{
    if docs.len() > 0 {
        law_dispatch_rows_pass_filter(docs.drop_last(), filter);
        let prev = truck_dispatch_pipeline(docs.drop_last(), filter);
        assert forall|k: int| 0 <= k < truck_dispatch_pipeline(docs, filter).len() implies status_passes(
            filter,
            (#[trigger] truck_dispatch_pipeline(docs, filter)[k]).pipeline_status,
        ) by {
            if k < prev.len() {
                assert(truck_dispatch_pipeline(docs, filter)[k] == prev[k]);
            }
        }
    }
}

/// The status of a waybill in a receipt pipeline as its first acceptance
/// gives it: pending without acceptance, else draft or executed as that
/// acceptance is.
pub open spec fn first_acceptance_status(wb: LoadedWaybill) -> PipelineStatus {
    if wb.acceptances@.len() == 0 {
        PipelineStatus::Pending
    } else if wb.acceptances@[0].status == DocumentStatus::Draft {
        PipelineStatus::Draft
    } else {
        PipelineStatus::Executed
    }
}

/// The sum of some amounts when it is above zero, else nothing.
pub open spec fn sum_above_zero(amounts: Seq<Quantity>) -> Option<Quantity> {
    match spec_total(amounts) {
        Some(t) => if t.value() > 0 {
            Some(t)
        } else {
            None
        },
        None => None,
    }
}

/// What a receipt pipeline row shows of its waybill: the waybill's id and
/// sender, its first declared line's quantity as the expected quantity, and from
/// its first acceptance the id, the positive sum of the accepted amounts as the
/// actual quantity, and the status.
pub open spec fn receipt_row_shows(r: ReceiptPipelineRowView, wb: LoadedWaybill) -> bool {
    &&& r.id == wb.id
    &&& r.contractor_id == wb.sender_id
    &&& r.expected_quantity == (if wb.lines@.len() > 0 {
        Some(wb.lines@[0].declared_quantity)
    } else {
        None
    })
    &&& r.action_id == (if wb.acceptances@.len() > 0 {
        Some(wb.acceptances@[0].id)
    } else {
        None
    })
    &&& r.actual_quantity == (if wb.acceptances@.len() > 0 {
        sum_above_zero(wb.acceptances@[0].accepted_amounts@)
    } else {
        None
    })
    &&& r.pipeline_status == first_acceptance_status(wb)
}

proof fn lemma_receipt_pipeline_source(waybills: Seq<LoadedWaybill>, filter: Option<PipelineStatus>, j: int)
    requires
        0 <= j < receipt_pipeline(waybills, filter).len(),
    ensures
        exists|k: int|
            0 <= k < waybills.len() && status_passes(filter, waybill_status(waybills[k])) && receipt_pipeline(
                waybills,
                filter,
            )[j] == receipt_row_of(waybills[k]),
    decreases waybills.len(),
{
    let prev = receipt_pipeline(waybills.drop_last(), filter);
    if j < prev.len() {
        lemma_receipt_pipeline_source(waybills.drop_last(), filter, j);
        let k = choose|k: int|
            0 <= k < waybills.drop_last().len() && status_passes(filter, waybill_status(waybills.drop_last()[k]))
                && prev[j] == receipt_row_of(waybills.drop_last()[k]);
        assert(waybills.drop_last()[k] == waybills[k]);
    } else {
        assert(waybills.last() == waybills[waybills.len() - 1]);
    }
}

proof fn lemma_receipt_pipeline_cover(waybills: Seq<LoadedWaybill>, filter: Option<PipelineStatus>, k: int)
    requires
        0 <= k < waybills.len(),
        status_passes(filter, waybill_status(waybills[k])),
    ensures
        exists|j: int|
            0 <= j < receipt_pipeline(waybills, filter).len() && receipt_pipeline(waybills, filter)[j]
                == receipt_row_of(waybills[k]),
    decreases waybills.len(),
{
    let rows = receipt_pipeline(waybills, filter);
    let prev = receipt_pipeline(waybills.drop_last(), filter);
    if k < waybills.len() - 1 {
        assert(waybills.drop_last()[k] == waybills[k]);
        lemma_receipt_pipeline_cover(waybills.drop_last(), filter, k);
        let j = choose|j: int| 0 <= j < prev.len() && prev[j] == receipt_row_of(waybills.drop_last()[k]);
        assert(rows[j] == prev[j]);
    } else {
        assert(waybills.last() == waybills[k]);
        assert(rows[prev.len() as int] == receipt_row_of(waybills[k]));
    }
}

/// The receipt pipeline lists exactly the waybills whose status passes the
/// filter. Each row expects its waybill's first declared quantity, whatever the
/// acceptances, and takes its action, actual quantity (the accepted amounts'
/// sum, when above zero) and status from the first acceptance linked to the
/// waybill; a waybill without acceptance is pending.
pub proof fn law_receipt_pipeline_rows_show_their_waybill(waybills: Seq<LoadedWaybill>, filter: Option<PipelineStatus>)
    ensures
        forall|j: int|
            #![trigger receipt_pipeline(waybills, filter)[j]]
            0 <= j < receipt_pipeline(waybills, filter).len() ==> exists|k: int|
                #![trigger waybills[k]]
                0 <= k < waybills.len() && receipt_row_shows(receipt_pipeline(waybills, filter)[j], waybills[k])
                    && (filter matches Some(f) ==> f == first_acceptance_status(waybills[k])),
        forall|k: int|
            #![trigger waybills[k]]
            0 <= k < waybills.len() && (filter matches Some(f) ==> f == first_acceptance_status(waybills[k]))
                ==> exists|j: int|
                0 <= j < receipt_pipeline(waybills, filter).len() && receipt_row_shows(
                    #[trigger] receipt_pipeline(waybills, filter)[j],
                    waybills[k],
                ),
{
    let rows = receipt_pipeline(waybills, filter);
    assert forall|j: int| #![trigger rows[j]] 0 <= j < rows.len() implies exists|k: int|
        #![trigger waybills[k]]
        0 <= k < waybills.len() && receipt_row_shows(rows[j], waybills[k]) && (filter matches Some(f) ==> f
            == first_acceptance_status(waybills[k])) by {
        lemma_receipt_pipeline_source(waybills, filter, j);
        let k = choose|k: int|
            0 <= k < waybills.len() && status_passes(filter, waybill_status(waybills[k])) && rows[j]
                == receipt_row_of(waybills[k]);
        assert(waybills[k] == waybills[k]);
    }
    assert forall|k: int|
        #![trigger waybills[k]]
        0 <= k < waybills.len() && (filter matches Some(f) ==> f == first_acceptance_status(waybills[k])) implies exists|
        j: int,
    | 0 <= j < rows.len() && receipt_row_shows(#[trigger] rows[j], waybills[k]) by {
        lemma_receipt_pipeline_cover(waybills, filter, k);
    }
}

proof fn lemma_dispatch_pipeline_source(docs: Seq<LoadedTruckDispatch>, filter: Option<PipelineStatus>, j: int)
    requires
        0 <= j < truck_dispatch_pipeline(docs, filter).len(),
    ensures
        exists|k: int|
            0 <= k < docs.len() && status_passes(filter, pipeline_status_of(Some(docs[k].status)))
                && truck_dispatch_pipeline(docs, filter)[j] == dispatch_pipeline_row_of(docs[k]),
    decreases docs.len(),
{
    let prev = truck_dispatch_pipeline(docs.drop_last(), filter);
    if j < prev.len() {
        lemma_dispatch_pipeline_source(docs.drop_last(), filter, j);
        let k = choose|k: int|
            0 <= k < docs.drop_last().len() && status_passes(filter, pipeline_status_of(Some(docs.drop_last()[k].status)))
                && prev[j] == dispatch_pipeline_row_of(docs.drop_last()[k]);
        assert(docs.drop_last()[k] == docs[k]);
    } else {
        assert(docs.last() == docs[docs.len() - 1]);
    }
}

proof fn lemma_dispatch_pipeline_cover(docs: Seq<LoadedTruckDispatch>, filter: Option<PipelineStatus>, k: int)
    requires
        0 <= k < docs.len(),
        status_passes(filter, pipeline_status_of(Some(docs[k].status))),
    ensures
        exists|j: int|
            0 <= j < truck_dispatch_pipeline(docs, filter).len() && truck_dispatch_pipeline(docs, filter)[j]
                == dispatch_pipeline_row_of(docs[k]),
    decreases docs.len(),
{
    let rows = truck_dispatch_pipeline(docs, filter);
    let prev = truck_dispatch_pipeline(docs.drop_last(), filter);
    if k < docs.len() - 1 {
        assert(docs.drop_last()[k] == docs[k]);
        lemma_dispatch_pipeline_cover(docs.drop_last(), filter, k);
        let j = choose|j: int| 0 <= j < prev.len() && prev[j] == dispatch_pipeline_row_of(docs.drop_last()[k]);
        assert(rows[j] == prev[j]);
    } else {
        assert(docs.last() == docs[k]);
        assert(rows[prev.len() as int] == dispatch_pipeline_row_of(docs[k]));
    }
}

/// The truck dispatch pipeline lists exactly the dispatches whose status (draft
/// or executed, never pending) passes the filter, each with its contractor, its
/// status, and the sum of its lines' amounts, when above zero, as the
/// dispatched quantity.
pub proof fn law_dispatch_pipeline_rows_show_their_dispatch(
    docs: Seq<LoadedTruckDispatch>,
    filter: Option<PipelineStatus>,
)
    ensures
        forall|j: int|
            #![trigger truck_dispatch_pipeline(docs, filter)[j]]
            0 <= j < truck_dispatch_pipeline(docs, filter).len() ==> exists|k: int|
                #![trigger docs[k]]
                0 <= k < docs.len() && {
                    let r = truck_dispatch_pipeline(docs, filter)[j];
                    &&& r.id == docs[k].id
                    &&& r.contractor_id == docs[k].contractor_id
                    &&& r.dispatched_quantity == sum_above_zero(dispatched_amounts(docs[k].lines@))
                    &&& r.pipeline_status == (if docs[k].status == DocumentStatus::Draft {
                        PipelineStatus::Draft
                    } else {
                        PipelineStatus::Executed
                    })
                    &&& (filter matches Some(f) ==> f == r.pipeline_status)
                },
        forall|k: int|
            #![trigger docs[k]]
            0 <= k < docs.len() && (filter matches Some(f) ==> f == (if docs[k].status == DocumentStatus::Draft {
                PipelineStatus::Draft
            } else {
                PipelineStatus::Executed
            })) ==> exists|j: int|
                0 <= j < truck_dispatch_pipeline(docs, filter).len() && (#[trigger] truck_dispatch_pipeline(
                    docs,
                    filter,
                )[j]).id == docs[k].id,
{
    let rows = truck_dispatch_pipeline(docs, filter);
    assert forall|j: int| #![trigger rows[j]] 0 <= j < rows.len() implies exists|k: int|
        #![trigger docs[k]]
        0 <= k < docs.len() && {
            let r = rows[j];
            &&& r.id == docs[k].id
            &&& r.contractor_id == docs[k].contractor_id
            &&& r.dispatched_quantity == sum_above_zero(dispatched_amounts(docs[k].lines@))
            &&& r.pipeline_status == (if docs[k].status == DocumentStatus::Draft {
                PipelineStatus::Draft
            } else {
                PipelineStatus::Executed
            })
            &&& (filter matches Some(f) ==> f == r.pipeline_status)
        } by {
        lemma_dispatch_pipeline_source(docs, filter, j);
    }
    assert forall|k: int|
        #![trigger docs[k]]
        0 <= k < docs.len() && (filter matches Some(f) ==> f == (if docs[k].status == DocumentStatus::Draft {
            PipelineStatus::Draft
        } else {
            PipelineStatus::Executed
        })) implies exists|j: int| 0 <= j < rows.len() && (#[trigger] rows[j]).id == docs[k].id by {
        lemma_dispatch_pipeline_cover(docs, filter, k);
        let j = choose|j: int| 0 <= j < rows.len() && rows[j] == dispatch_pipeline_row_of(docs[k]);
    }
}

} // verus!
