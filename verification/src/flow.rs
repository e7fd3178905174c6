//! The flow views: the truck and rail receipt flows, the truck dispatch flow and
//! the unified cargo flow across every document kind. The store loads the
//! documents with their linked rows and resolved names; this module decides
//! which documents are listed, what each row shows, and the order and page of
//! the cargo flow.
use vstd::prelude::*;
use vstd::string::StringExecFns;

use crate::base_ids::chars_of;
use crate::enums::{
    pipeline_status_of, DispatchMethod, DispatchPurpose, DocumentStatus, FlowEntityType, FlowType, PipelineStatus,
};
use crate::flat_rows::{name_or, name_or_empty, opt_text};
use crate::pipelines::status_passes;
use crate::quantity::{all_fit, spec_total, total, Quantity};
use crate::sync_helpers::{uuid_string, uuid_text};

verus! {

// ---------------------------------------------------------------------------
// Texts
// ---------------------------------------------------------------------------

/// Whether text `a` comes before text `b`: compared character by character by
/// code point, a proper prefix first. This is the order of `String`'s `cmp`,
/// which compares the UTF-8 bytes, and UTF-8 keeps the order of code points.
pub open spec fn text_lt(a: Seq<char>, b: Seq<char>) -> bool
    decreases a.len(),
{
    if a.len() == 0 {
        b.len() > 0
    } else if b.len() == 0 {
        false
    } else if a[0] != b[0] {
        (a[0] as u32) < (b[0] as u32)
    } else {
        text_lt(a.drop_first(), b.drop_first())
    }
}

proof fn lemma_text_lt_skip(a: Seq<char>, b: Seq<char>, k: int)
    requires
        0 <= k <= a.len(),
        k <= b.len(),
        a.take(k) == b.take(k),
    ensures
        text_lt(a.skip(k), b.skip(k)) == text_lt(a, b),
    decreases k,
{
    if k > 0 {
        assert(a[0] == a.take(k)[0]);
        assert(b[0] == b.take(k)[0]);
        assert(a.drop_first().take(k - 1) =~= a.take(k).drop_first());
        assert(b.drop_first().take(k - 1) =~= b.take(k).drop_first());
        lemma_text_lt_skip(a.drop_first(), b.drop_first(), k - 1);
        assert(a.drop_first().skip(k - 1) =~= a.skip(k));
        assert(b.drop_first().skip(k - 1) =~= b.skip(k));
    } else {
        assert(a.skip(0) =~= a);
        assert(b.skip(0) =~= b);
    }
}

/// Whether text `a` comes before text `b` in `String`'s order.
pub fn text_less(a: &str, b: &str) -> (res: bool)
    ensures
        res == text_lt(a@, b@),
{
    let x = chars_of(a);
    let y = chars_of(b);
    let mut i: usize = 0;
    while i < x.len() && i < y.len()
        invariant
            x@ == a@,
            y@ == b@,
            i <= x.len(),
            i <= y.len(),
            x@.take(i as int) == y@.take(i as int),
        decreases x.len() - i,
    {
        if x[i] != y[i] {
            proof {
                lemma_text_lt_skip(x@, y@, i as int);
                assert(x@.skip(i as int)[0] == x@[i as int]);
                assert(y@.skip(i as int)[0] == y@[i as int]);
            }
            return (x[i] as u32) < (y[i] as u32);
        }
        assert(x@.take(i + 1) =~= x@.take(i as int).push(x@[i as int]));
        assert(y@.take(i + 1) =~= y@.take(i as int).push(y@[i as int]));
        i = i + 1;
    }
    proof {
        lemma_text_lt_skip(x@, y@, i as int);
    }
    i < y.len()
}

/// Whether two texts are equal.
pub fn text_equals(a: &str, b: &str) -> (res: bool)
    ensures
        res == (a@ == b@),
{
    let x = chars_of(a);
    let y = chars_of(b);
    if x.len() != y.len() {
        return false;
    }
    let mut i: usize = 0;
    while i < x.len()
        invariant
            x@ == a@,
            y@ == b@,
            x.len() == y.len(),
            i <= x.len(),
            forall|j: int| 0 <= j < i ==> x@[j] == y@[j],
        decreases x.len() - i,
    {
        if x[i] != y[i] {
            return false;
        }
        i = i + 1;
    }
    assert(x@ =~= y@);
    true
}

/// Whether an optional text filter passes a text: no filter, or the same text.
pub open spec fn text_filter_passes(filter: Option<Seq<char>>, value: Seq<char>) -> bool {
    match filter {
        Some(f) => f == value,
        None => true,
    }
}

fn text_filter_check(filter: Option<&str>, value: &str) -> (res: bool)
    ensures
        res == text_filter_passes(
            match filter {
                Some(f) => Some(f@),
                None => None,
            },
            value@,
        ),
{
    match filter {
        Some(f) => text_equals(f, value),
        None => true,
    }
}

/// The view of an optional text argument.
pub open spec fn opt_str(filter: Option<&str>) -> Option<Seq<char>> {
    match filter {
        Some(f) => Some(f@),
        None => None,
    }
}

/// Whether an optional id filter passes an id.
pub open spec fn id_passes(filter: Option<u128>, id: u128) -> bool {
    match filter {
        Some(f) => f == id,
        None => true,
    }
}

/// Whether an optional pipeline status filter passes.
fn status_check(filter: Option<PipelineStatus>, status: PipelineStatus) -> (res: bool)
    ensures
        res == status_passes(filter, status),
{
    match filter {
        Some(f) => f == status,
        None => true,
    }
}

/// The name shown for a company that the store could not resolve.
pub open spec fn unknown_text() -> Seq<char> {
    "Unknown"@
}

fn name_or_unknown(name: &Option<String>) -> (res: String)
    ensures
        res@ == name_or(*name, unknown_text()),
{
    match name {
        Some(n) => n.clone(),
        None => String::from_str("Unknown"),
    }
}

/// A document's first line, as loaded: its product's resolved name and its
/// amount.
#[derive(Debug, Clone)]
pub struct FirstLine {
    pub product_name: Option<String>,
    pub amount: Quantity,
}

/// The product name of an optional first line.
pub open spec fn line_product(line: Option<FirstLine>) -> Option<Seq<char>> {
    match line {
        Some(l) => opt_text(l.product_name),
        None => None,
    }
}

fn line_product_name(line: &Option<FirstLine>) -> (res: Option<String>)
    ensures
        opt_text(res) == line_product(*line),
{
    match line {
        Some(l) => l.product_name.clone(),
        None => None,
    }
}

/// The amount of an optional first line.
pub open spec fn line_amount(line: Option<FirstLine>) -> Option<Quantity> {
    match line {
        Some(l) => Some(l.amount),
        None => None,
    }
}

/// The sum of the amounts of a document's rows as a map of sums keyed by
/// document gives it: none without rows, else their decimal sum folded from
/// zero.
pub open spec fn rows_sum(amounts: Seq<Quantity>) -> Option<Quantity> {
    if amounts.len() == 0 {
        None
    } else {
        spec_total(amounts)
    }
}

/// Whether the sum of the amounts can be formed: none or no overflow.
pub open spec fn rows_sum_defined(amounts: Seq<Quantity>) -> bool {
    amounts.len() == 0 || spec_total(amounts) is Some
}

fn sum_of_rows(amounts: &Vec<Quantity>) -> (res: Option<Quantity>)
    requires
        all_fit(amounts@),
        rows_sum_defined(amounts@),
    ensures
        res == rows_sum(amounts@),
{
    if amounts.len() == 0 {
        None
    } else {
        total(amounts)
    }
}

// ---------------------------------------------------------------------------
// Truck dispatch flow
// ---------------------------------------------------------------------------

/// A dispatch document as loaded for the truck dispatch flow: its contractor's
/// resolved name, its first item and the amounts of all its items.
#[derive(Debug, Clone)]
pub struct LoadedDispatchFlow {
    pub id: u128,
    pub document_number: String,
    pub date: String,
    pub dispatch_method: DispatchMethod,
    pub dispatch_purpose: DispatchPurpose,
    pub contractor_id: u128,
    pub contractor_name: Option<String>,
    pub status: DocumentStatus,
    pub first_item: Option<FirstLine>,
    pub item_amounts: Vec<Quantity>,
}

/// One row of the truck dispatch flow.
#[derive(Debug, Clone)]
pub struct TruckDispatchFlowRow {
    pub dispatch_id: u128,
    pub document_number: String,
    pub date: String,
    pub contractor_id: u128,
    pub contractor_name: String,
    pub product_name: Option<String>,
    pub dispatched_quantity: Option<Quantity>,
    pub pipeline_status: PipelineStatus,
}

/// A truck dispatch flow row with its texts as character sequences.
pub struct TruckDispatchFlowRowView {
    pub dispatch_id: u128,
    pub document_number: Seq<char>,
    pub date: Seq<char>,
    pub contractor_id: u128,
    pub contractor_name: Seq<char>,
    pub product_name: Option<Seq<char>>,
    pub dispatched_quantity: Option<Quantity>,
    pub pipeline_status: PipelineStatus,
}

impl View for TruckDispatchFlowRow {
    type V = TruckDispatchFlowRowView;

    open spec fn view(&self) -> TruckDispatchFlowRowView {
        TruckDispatchFlowRowView {
            dispatch_id: self.dispatch_id,
            document_number: self.document_number@,
            date: self.date@,
            contractor_id: self.contractor_id,
            contractor_name: self.contractor_name@,
            product_name: opt_text(self.product_name),
            dispatched_quantity: self.dispatched_quantity,
            pipeline_status: self.pipeline_status,
        }
    }
}

/// The views of truck dispatch flow rows.
pub open spec fn truck_dispatch_flow_views(rows: Seq<TruckDispatchFlowRow>) -> Seq<TruckDispatchFlowRowView> {
    rows.map_values(|r: TruckDispatchFlowRow| r@)
}

/// Whether a dispatch is listed in the truck dispatch flow: a truck dispatch of
/// the filtered contractor whose pipeline status passes the filter (a pending
/// filter lists nothing, as a dispatch is never pending).
pub open spec fn truck_dispatch_listed(
    d: LoadedDispatchFlow,
    status: Option<PipelineStatus>,
    contractor_id: Option<u128>,
) -> bool {
    &&& d.dispatch_method == DispatchMethod::Truck
    &&& id_passes(contractor_id, d.contractor_id)
    &&& status_passes(status, pipeline_status_of(Some(d.status)))
}

/// The row of a dispatch in the truck dispatch flow: the contractor's name or
/// the empty text, the first item's product, and the sum of all item amounts
/// (none without items).
pub open spec fn truck_dispatch_flow_row_of(d: LoadedDispatchFlow) -> TruckDispatchFlowRowView {
    TruckDispatchFlowRowView {
        dispatch_id: d.id,
        document_number: d.document_number@,
        date: d.date@,
        contractor_id: d.contractor_id,
        contractor_name: name_or(d.contractor_name, Seq::empty()),
        product_name: line_product(d.first_item),
        dispatched_quantity: rows_sum(d.item_amounts@),
        pipeline_status: pipeline_status_of(Some(d.status)),
    }
}

/// The truck dispatch flow of the loaded dispatches, in their order.
pub open spec fn spec_truck_dispatch_flow(
    docs: Seq<LoadedDispatchFlow>,
    status: Option<PipelineStatus>,
    contractor_id: Option<u128>,
) -> Seq<TruckDispatchFlowRowView>
    decreases docs.len(),
{
    if docs.len() == 0 {
        Seq::empty()
    } else {
        let prev = spec_truck_dispatch_flow(docs.drop_last(), status, contractor_id);
        if truck_dispatch_listed(docs.last(), status, contractor_id) {
            prev.push(truck_dispatch_flow_row_of(docs.last()))
        } else {
            prev
        }
    }
}

/// Whether every listed dispatch's item sum can be formed.
pub open spec fn truck_dispatch_sums_defined(
    docs: Seq<LoadedDispatchFlow>,
    status: Option<PipelineStatus>,
    contractor_id: Option<u128>,
) -> bool {
    forall|k: int|
        0 <= k < docs.len() && truck_dispatch_listed(#[trigger] docs[k], status, contractor_id)
            ==> rows_sum_defined(docs[k].item_amounts@)
}

/// The item amounts of every dispatch are decimals.
pub open spec fn dispatch_amounts_fit(docs: Seq<LoadedDispatchFlow>) -> bool {
    forall|k: int| 0 <= k < docs.len() ==> all_fit((#[trigger] docs[k]).item_amounts@)
}

fn truck_dispatch_flow_row(d: &LoadedDispatchFlow) -> (res: TruckDispatchFlowRow)
    requires
        all_fit(d.item_amounts@),
        rows_sum_defined(d.item_amounts@),
    ensures
        res@ == truck_dispatch_flow_row_of(*d),
{
    TruckDispatchFlowRow {
        dispatch_id: d.id,
        document_number: d.document_number.clone(),
        date: d.date.clone(),
        contractor_id: d.contractor_id,
        contractor_name: name_or_empty(&d.contractor_name),
        product_name: line_product_name(&d.first_item),
        dispatched_quantity: sum_of_rows(&d.item_amounts),
        pipeline_status: PipelineStatus::from_doc_status(Some(&d.status)),
    }
}

/// The truck dispatch flow: one row per truck dispatch of the filtered
/// contractor whose status passes the filter, in the order loaded.
pub fn truck_dispatch_flow_rows(
    docs: &Vec<LoadedDispatchFlow>,
    status: Option<PipelineStatus>,
    contractor_id: Option<u128>,
) -> (res: Vec<TruckDispatchFlowRow>)
    requires
        dispatch_amounts_fit(docs@),
        truck_dispatch_sums_defined(docs@, status, contractor_id),
    ensures
        truck_dispatch_flow_views(res@) == spec_truck_dispatch_flow(docs@, status, contractor_id),
{
    let mut rows: Vec<TruckDispatchFlowRow> = Vec::new();
    let mut i: usize = 0;
    while i < docs.len()
        invariant
            i <= docs.len(),
            dispatch_amounts_fit(docs@),
            truck_dispatch_sums_defined(docs@, status, contractor_id),
            truck_dispatch_flow_views(rows@) == spec_truck_dispatch_flow(docs@.take(i as int), status, contractor_id),
        decreases docs.len() - i,
    {
        let d = &docs[i];
        assert(docs@.take(i + 1).drop_last() =~= docs@.take(i as int));
        assert(docs@.take(i + 1).last() == docs@[i as int]);
        let listed = d.dispatch_method == DispatchMethod::Truck && match contractor_id {
            Some(c) => c == d.contractor_id,
            None => true,
        } && status_check(status, PipelineStatus::from_doc_status(Some(&d.status)));
        if listed {
            assert(all_fit(docs@[i as int].item_amounts@));
            let ghost prev = rows@;
            let row = truck_dispatch_flow_row(d);
            rows.push(row);
            assert(truck_dispatch_flow_views(rows@) =~= truck_dispatch_flow_views(prev).push(row@));
        }
        i = i + 1;
    }
    assert(docs@.take(docs.len() as int) =~= docs@);
    rows
}

/// The truck dispatch flow, or none where the item sum of a listed dispatch
/// overflows.
pub fn checked_truck_dispatch_flow_rows(
    docs: &Vec<LoadedDispatchFlow>,
    status: Option<PipelineStatus>,
    contractor_id: Option<u128>,
) -> (res: Option<Vec<TruckDispatchFlowRow>>)
    requires
        dispatch_amounts_fit(docs@),
    ensures
        res is None <==> !truck_dispatch_sums_defined(docs@, status, contractor_id),
        res matches Some(v) ==> truck_dispatch_flow_views(v@) == spec_truck_dispatch_flow(docs@, status, contractor_id),
{
    let mut i: usize = 0;
    while i < docs.len()
        invariant
            i <= docs.len(),
            dispatch_amounts_fit(docs@),
            forall|k: int|
                0 <= k < i && truck_dispatch_listed(#[trigger] docs@[k], status, contractor_id)
                    ==> rows_sum_defined(docs@[k].item_amounts@),
        decreases docs.len() - i,
    {
        let d = &docs[i];
        let listed = d.dispatch_method == DispatchMethod::Truck && match contractor_id {
            Some(c) => c == d.contractor_id,
            None => true,
        } && status_check(status, PipelineStatus::from_doc_status(Some(&d.status)));
        if listed && d.item_amounts.len() > 0 {
            assert(all_fit(docs@[i as int].item_amounts@));
            if total(&d.item_amounts).is_none() {
                return None;
            }
        }
        i = i + 1;
    }
    Some(truck_dispatch_flow_rows(docs, status, contractor_id))
}

// ---------------------------------------------------------------------------
// Receipt flows (truck and rail waybills)
// ---------------------------------------------------------------------------

/// An acceptance document linked to a waybill, with the amounts of its items.
#[derive(Debug, Clone)]
pub struct LinkedReceipt {
    pub id: u128,
    pub document_number: String,
    pub status: DocumentStatus,
    pub item_amounts: Vec<Quantity>,
}

/// A waybill as loaded for a receipt flow: its sender's resolved name, its first
/// line (a truck waybill item or a wagon manifest, with its declared amount or
/// mass), and the acceptance documents linked to it, in load order.
#[derive(Debug, Clone)]
pub struct LoadedReceiptFlow {
    pub id: u128,
    pub document_number: String,
    pub date: String,
    pub sender_id: u128,
    pub sender_name: Option<String>,
    pub first_line: Option<FirstLine>,
    pub acceptances: Vec<LinkedReceipt>,
}

/// The acceptance that acts on a waybill in the truck receipt flow: the last one
/// linked to it, as a map from waybill to acceptance keeps the last entry.
pub open spec fn truck_acting_acceptance(wb: LoadedReceiptFlow) -> Option<LinkedReceipt> {
    if wb.acceptances@.len() > 0 {
        Some(wb.acceptances@.last())
    } else {
        None
    }
}

/// The acceptance that acts on a waybill in the rail receipt flow: the first one
/// linked to it.
pub open spec fn rail_acting_acceptance(wb: LoadedReceiptFlow) -> Option<LinkedReceipt> {
    if wb.acceptances@.len() > 0 {
        Some(wb.acceptances@[0])
    } else {
        None
    }
}

/// The pipeline status of a waybill with its acting acceptance: pending without
/// one, else the acceptance's status.
pub open spec fn receipt_status(acc: Option<LinkedReceipt>) -> PipelineStatus {
    match acc {
        Some(a) => pipeline_status_of(Some(a.status)),
        None => PipelineStatus::Pending,
    }
}

/// The text of a pipeline status in the truck receipt flow.
pub open spec fn status_text(status: PipelineStatus) -> Seq<char> {
    match status {
        PipelineStatus::Pending => "pending"@,
        PipelineStatus::Draft => "draft"@,
        PipelineStatus::Executed => "executed"@,
    }
}

fn status_string(status: PipelineStatus) -> (res: String)
    ensures
        res@ == status_text(status),
{
    match status {
        PipelineStatus::Pending => String::from_str("pending"),
        PipelineStatus::Draft => String::from_str("draft"),
        PipelineStatus::Executed => String::from_str("executed"),
    }
}

/// The actual quantity of a receipt: the sum of its acting acceptance's items.
pub open spec fn receipt_actual(acc: Option<LinkedReceipt>) -> Option<Quantity> {
    match acc {
        Some(a) => rows_sum(a.item_amounts@),
        None => None,
    }
}

/// Whether the actual quantity of a receipt can be formed.
pub open spec fn receipt_actual_defined(acc: Option<LinkedReceipt>) -> bool {
    match acc {
        Some(a) => rows_sum_defined(a.item_amounts@),
        None => true,
    }
}

/// The amounts of every acceptance of every waybill are decimals.
pub open spec fn receipt_amounts_fit(waybills: Seq<LoadedReceiptFlow>) -> bool {
    forall|k: int, j: int|
        0 <= k < waybills.len() && 0 <= j < waybills[k].acceptances@.len() ==> all_fit(
            (#[trigger] waybills[k].acceptances@[j]).item_amounts@,
        )
}

/// One row of a receipt flow; the truck flow writes its status as text.
#[derive(Debug, Clone)]
pub struct ReceiptFlowRow<S> {
    pub basis_id: u128,
    pub basis_document_number: String,
    pub basis_date: String,
    pub contractor_id: u128,
    pub contractor_name: String,
    pub product_name: Option<String>,
    pub expected_quantity: Option<Quantity>,
    pub action_id: Option<u128>,
    pub action_document_number: Option<String>,
    pub actual_quantity: Option<Quantity>,
    pub pipeline_status: S,
}

/// A receipt flow row with its texts as character sequences.
pub struct ReceiptFlowRowView<S> {
    pub basis_id: u128,
    pub basis_document_number: Seq<char>,
    pub basis_date: Seq<char>,
    pub contractor_id: u128,
    pub contractor_name: Seq<char>,
    pub product_name: Option<Seq<char>>,
    pub expected_quantity: Option<Quantity>,
    pub action_id: Option<u128>,
    pub action_document_number: Option<Seq<char>>,
    pub actual_quantity: Option<Quantity>,
    pub pipeline_status: S,
}

/// A row of the truck receipt flow.
pub type TruckReceiptFlowRow = ReceiptFlowRow<String>;

/// A row of the rail receipt flow.
pub type RailReceiptFlowRow = ReceiptFlowRow<PipelineStatus>;

/// The view of a truck receipt flow row.
pub open spec fn truck_receipt_view(r: TruckReceiptFlowRow) -> ReceiptFlowRowView<Seq<char>> {
    ReceiptFlowRowView {
        basis_id: r.basis_id,
        basis_document_number: r.basis_document_number@,
        basis_date: r.basis_date@,
        contractor_id: r.contractor_id,
        contractor_name: r.contractor_name@,
        product_name: opt_text(r.product_name),
        expected_quantity: r.expected_quantity,
        action_id: r.action_id,
        action_document_number: opt_text(r.action_document_number),
        actual_quantity: r.actual_quantity,
        pipeline_status: r.pipeline_status@,
    }
}

/// The view of a rail receipt flow row.
pub open spec fn rail_receipt_view(r: RailReceiptFlowRow) -> ReceiptFlowRowView<PipelineStatus> {
    ReceiptFlowRowView {
        basis_id: r.basis_id,
        basis_document_number: r.basis_document_number@,
        basis_date: r.basis_date@,
        contractor_id: r.contractor_id,
        contractor_name: r.contractor_name@,
        product_name: opt_text(r.product_name),
        expected_quantity: r.expected_quantity,
        action_id: r.action_id,
        action_document_number: opt_text(r.action_document_number),
        actual_quantity: r.actual_quantity,
        pipeline_status: r.pipeline_status,
    }
}

/// The views of truck receipt flow rows.
pub open spec fn truck_receipt_flow_views(rows: Seq<TruckReceiptFlowRow>) -> Seq<ReceiptFlowRowView<Seq<char>>> {
    rows.map_values(|r: TruckReceiptFlowRow| truck_receipt_view(r))
}

/// The views of rail receipt flow rows.
pub open spec fn rail_receipt_flow_views(rows: Seq<RailReceiptFlowRow>) -> Seq<ReceiptFlowRowView<PipelineStatus>> {
    rows.map_values(|r: RailReceiptFlowRow| rail_receipt_view(r))
}

/// The fields of a receipt row that the truck and rail flows share, with the
/// given acting acceptance, contractor name and status.
pub open spec fn receipt_row_with<S>(
    wb: LoadedReceiptFlow,
    acc: Option<LinkedReceipt>,
    contractor_name: Seq<char>,
    status: S,
) -> ReceiptFlowRowView<S> {
    ReceiptFlowRowView {
        basis_id: wb.id,
        basis_document_number: wb.document_number@,
        basis_date: wb.date@,
        contractor_id: wb.sender_id,
        contractor_name,
        product_name: line_product(wb.first_line),
        expected_quantity: line_amount(wb.first_line),
        action_id: match acc {
            Some(a) => Some(a.id),
            None => None,
        },
        action_document_number: match acc {
            Some(a) => Some(a.document_number@),
            None => None,
        },
        actual_quantity: receipt_actual(acc),
        pipeline_status: status,
    }
}

/// Whether a waybill is listed in the truck receipt flow: of the filtered
/// sender, with a status text equal to the filter's.
pub open spec fn truck_receipt_listed(
    wb: LoadedReceiptFlow,
    pipeline_status: Option<Seq<char>>,
    contractor_id: Option<u128>,
) -> bool {
    id_passes(contractor_id, wb.sender_id) && text_filter_passes(
        pipeline_status,
        status_text(receipt_status(truck_acting_acceptance(wb))),
    )
}

/// The truck receipt flow of the loaded waybills, in their order: the sender's
/// name or "Unknown", the first item's product and declared amount, the last
/// linked acceptance, the sum of its items, and the status as text.
pub open spec fn spec_truck_receipt_flow(
    waybills: Seq<LoadedReceiptFlow>,
    pipeline_status: Option<Seq<char>>,
    contractor_id: Option<u128>,
) -> Seq<ReceiptFlowRowView<Seq<char>>>
    decreases waybills.len(),
{
    if waybills.len() == 0 {
        Seq::empty()
    } else {
        let prev = spec_truck_receipt_flow(waybills.drop_last(), pipeline_status, contractor_id);
        let wb = waybills.last();
        let acc = truck_acting_acceptance(wb);
        if truck_receipt_listed(wb, pipeline_status, contractor_id) {
            prev.push(
                receipt_row_with(
                    wb,
                    acc,
                    name_or(wb.sender_name, unknown_text()),
                    status_text(receipt_status(acc)),
                ),
            )
        } else {
            prev
        }
    }
}

/// Whether every listed waybill's actual quantity can be formed.
pub open spec fn truck_receipt_sums_defined(
    waybills: Seq<LoadedReceiptFlow>,
    pipeline_status: Option<Seq<char>>,
    contractor_id: Option<u128>,
) -> bool {
    forall|k: int|
        0 <= k < waybills.len() && truck_receipt_listed(#[trigger] waybills[k], pipeline_status, contractor_id)
            ==> receipt_actual_defined(truck_acting_acceptance(waybills[k]))
}

fn acting_fields(acc: Option<&LinkedReceipt>) -> (res: (Option<u128>, Option<String>, Option<Quantity>))
    requires
        acc matches Some(a) ==> all_fit(a.item_amounts@) && rows_sum_defined(a.item_amounts@),
    ensures
        res.0 == (match acc {
            Some(a) => Some(a.id),
            None => None,
        }),
        opt_text(res.1) == (match acc {
            Some(a) => Some(a.document_number@),
            None => None,
        }),
        res.2 == receipt_actual(
            match acc {
                Some(a) => Some(*a),
                None => None,
            },
        ),
{
    match acc {
        Some(a) => (Some(a.id), Some(a.document_number.clone()), sum_of_rows(&a.item_amounts)),
        None => (None, None, None),
    }
}

fn receipt_status_of(acc: Option<&LinkedReceipt>) -> (res: PipelineStatus)
    ensures
        res == receipt_status(
            match acc {
                Some(a) => Some(*a),
                None => None,
            },
        ),
{
    match acc {
        Some(a) => PipelineStatus::from_doc_status(Some(&a.status)),
        None => PipelineStatus::Pending,
    }
}

/// The truck receipt flow: one row per waybill of the filtered sender whose
/// status text equals the filter's, in the order loaded.
pub fn truck_receipt_flow_rows(
    waybills: &Vec<LoadedReceiptFlow>,
    pipeline_status: Option<&str>,
    contractor_id: Option<u128>,
) -> (res: Vec<TruckReceiptFlowRow>)
    requires
        receipt_amounts_fit(waybills@),
        truck_receipt_sums_defined(waybills@, opt_str(pipeline_status), contractor_id),
    ensures
        truck_receipt_flow_views(res@) == spec_truck_receipt_flow(waybills@, opt_str(pipeline_status), contractor_id),
{
    let mut rows: Vec<TruckReceiptFlowRow> = Vec::new();
    let mut i: usize = 0;
    while i < waybills.len()
        invariant
            i <= waybills.len(),
            receipt_amounts_fit(waybills@),
            truck_receipt_sums_defined(waybills@, opt_str(pipeline_status), contractor_id),
            truck_receipt_flow_views(rows@) == spec_truck_receipt_flow(
                waybills@.take(i as int),
                opt_str(pipeline_status),
                contractor_id,
            ),
        decreases waybills.len() - i,
    {
        let wb = &waybills[i];
        assert(waybills@.take(i + 1).drop_last() =~= waybills@.take(i as int));
        assert(waybills@.take(i + 1).last() == waybills@[i as int]);
        let acc = if wb.acceptances.len() > 0 {
            Some(&wb.acceptances[wb.acceptances.len() - 1])
        } else {
            None
        };
        let status = receipt_status_of(acc);
        let text = status_string(status);
        let listed = match contractor_id {
            Some(c) => c == wb.sender_id,
            None => true,
        } && text_filter_check(pipeline_status, text.as_str());
        if listed {
            proof {
                if wb.acceptances@.len() > 0 {
                    assert(all_fit(waybills@[i as int].acceptances@[wb.acceptances@.len() - 1].item_amounts@));
                }
            }
            let (action_id, action_document_number, actual_quantity) = acting_fields(acc);
            let row = ReceiptFlowRow {
                basis_id: wb.id,
                basis_document_number: wb.document_number.clone(),
                basis_date: wb.date.clone(),
                contractor_id: wb.sender_id,
                contractor_name: name_or_unknown(&wb.sender_name),
                product_name: line_product_name(&wb.first_line),
                expected_quantity: match &wb.first_line {
                    Some(l) => Some(l.amount),
                    None => None,
                },
                action_id,
                action_document_number,
                actual_quantity,
                pipeline_status: text,
            };
            let ghost prev = rows@;
            rows.push(row);
            assert(truck_receipt_flow_views(rows@) =~= truck_receipt_flow_views(prev).push(truck_receipt_view(row)));
        }
        i = i + 1;
    }
    assert(waybills@.take(waybills.len() as int) =~= waybills@);
    rows
}

/// The truck receipt flow, or none where the item sum of a listed waybill's
/// acceptance overflows.
pub fn checked_truck_receipt_flow_rows(
    waybills: &Vec<LoadedReceiptFlow>,
    pipeline_status: Option<&str>,
    contractor_id: Option<u128>,
) -> (res: Option<Vec<TruckReceiptFlowRow>>)
    requires
        receipt_amounts_fit(waybills@),
    ensures
        res is None <==> !truck_receipt_sums_defined(waybills@, opt_str(pipeline_status), contractor_id),
        res matches Some(v) ==> truck_receipt_flow_views(v@) == spec_truck_receipt_flow(
            waybills@,
            opt_str(pipeline_status),
            contractor_id,
        ),
{
    let mut i: usize = 0;
    while i < waybills.len()
        invariant
            i <= waybills.len(),
            receipt_amounts_fit(waybills@),
            forall|k: int|
                0 <= k < i && truck_receipt_listed(#[trigger] waybills@[k], opt_str(pipeline_status), contractor_id)
                    ==> receipt_actual_defined(truck_acting_acceptance(waybills@[k])),
        decreases waybills.len() - i,
    {
        let wb = &waybills[i];
        let acc = if wb.acceptances.len() > 0 {
            Some(&wb.acceptances[wb.acceptances.len() - 1])
        } else {
            None
        };
        let text = status_string(receipt_status_of(acc));
        let listed = match contractor_id {
            Some(c) => c == wb.sender_id,
            None => true,
        } && text_filter_check(pipeline_status, text.as_str());
        if listed {
            match acc {
                Some(a) => {
                    assert(all_fit(waybills@[i as int].acceptances@[wb.acceptances@.len() - 1].item_amounts@));
                    if a.item_amounts.len() > 0 && total(&a.item_amounts).is_none() {
                        return None;
                    }
                },
                None => {},
            }
        }
        i = i + 1;
    }
    Some(truck_receipt_flow_rows(waybills, pipeline_status, contractor_id))
}

/// Whether a waybill is listed in the rail receipt flow: of the filtered sender,
/// with a pipeline status that passes the filter.
pub open spec fn rail_receipt_listed(
    wb: LoadedReceiptFlow,
    pipeline_status: Option<PipelineStatus>,
    contractor_id: Option<u128>,
) -> bool {
    id_passes(contractor_id, wb.sender_id) && status_passes(
        pipeline_status,
        receipt_status(rail_acting_acceptance(wb)),
    )
}

/// The rail receipt flow of the loaded waybills, in their order: the sender's
/// name or the empty text, the first manifest's product and declared mass, the
/// first linked acceptance, the sum of its items, and the pipeline status.
pub open spec fn spec_rail_receipt_flow(
    waybills: Seq<LoadedReceiptFlow>,
    pipeline_status: Option<PipelineStatus>,
    contractor_id: Option<u128>,
) -> Seq<ReceiptFlowRowView<PipelineStatus>>
    decreases waybills.len(),
{
    if waybills.len() == 0 {
        Seq::empty()
    } else {
        let prev = spec_rail_receipt_flow(waybills.drop_last(), pipeline_status, contractor_id);
        let wb = waybills.last();
        let acc = rail_acting_acceptance(wb);
        if rail_receipt_listed(wb, pipeline_status, contractor_id) {
            prev.push(receipt_row_with(wb, acc, name_or(wb.sender_name, Seq::empty()), receipt_status(acc)))
        } else {
            prev
        }
    }
}

/// Whether every listed waybill's actual quantity can be formed.
pub open spec fn rail_receipt_sums_defined(
    waybills: Seq<LoadedReceiptFlow>,
    pipeline_status: Option<PipelineStatus>,
    contractor_id: Option<u128>,
) -> bool {
    forall|k: int|
        0 <= k < waybills.len() && rail_receipt_listed(#[trigger] waybills[k], pipeline_status, contractor_id)
            ==> receipt_actual_defined(rail_acting_acceptance(waybills[k]))
}

/// The rail receipt flow: one row per waybill of the filtered sender whose
/// status passes the filter, in the order loaded.
pub fn rail_receipt_flow_rows(
    waybills: &Vec<LoadedReceiptFlow>,
    pipeline_status: Option<PipelineStatus>,
    contractor_id: Option<u128>,
) -> (res: Vec<RailReceiptFlowRow>)
    requires
        receipt_amounts_fit(waybills@),
        rail_receipt_sums_defined(waybills@, pipeline_status, contractor_id),
    ensures
        rail_receipt_flow_views(res@) == spec_rail_receipt_flow(waybills@, pipeline_status, contractor_id),
{
    let mut rows: Vec<RailReceiptFlowRow> = Vec::new();
    let mut i: usize = 0;
    while i < waybills.len()
        invariant
            i <= waybills.len(),
            receipt_amounts_fit(waybills@),
            rail_receipt_sums_defined(waybills@, pipeline_status, contractor_id),
            rail_receipt_flow_views(rows@) == spec_rail_receipt_flow(
                waybills@.take(i as int),
                pipeline_status,
                contractor_id,
            ),
        decreases waybills.len() - i,
    {
        let wb = &waybills[i];
        assert(waybills@.take(i + 1).drop_last() =~= waybills@.take(i as int));
        assert(waybills@.take(i + 1).last() == waybills@[i as int]);
        let acc = if wb.acceptances.len() > 0 {
            Some(&wb.acceptances[0])
        } else {
            None
        };
        let status = receipt_status_of(acc);
        let listed = match contractor_id {
            Some(c) => c == wb.sender_id,
            None => true,
        } && status_check(pipeline_status, status);
        if listed {
            proof {
                if wb.acceptances@.len() > 0 {
                    assert(all_fit(waybills@[i as int].acceptances@[0].item_amounts@));
                }
            }
            let (action_id, action_document_number, actual_quantity) = acting_fields(acc);
            let row = ReceiptFlowRow {
                basis_id: wb.id,
                basis_document_number: wb.document_number.clone(),
                basis_date: wb.date.clone(),
                contractor_id: wb.sender_id,
                contractor_name: name_or_empty(&wb.sender_name),
                product_name: line_product_name(&wb.first_line),
                expected_quantity: match &wb.first_line {
                    Some(l) => Some(l.amount),
                    None => None,
                },
                action_id,
                action_document_number,
                actual_quantity,
                pipeline_status: status,
            };
            let ghost prev = rows@;
            rows.push(row);
            assert(rail_receipt_flow_views(rows@) =~= rail_receipt_flow_views(prev).push(rail_receipt_view(row)));
        }
        i = i + 1;
    }
    assert(waybills@.take(waybills.len() as int) =~= waybills@);
    rows
}

/// The rail receipt flow, or none where the item sum of a listed waybill's
/// acceptance overflows.
pub fn checked_rail_receipt_flow_rows(
    waybills: &Vec<LoadedReceiptFlow>,
    pipeline_status: Option<PipelineStatus>,
    contractor_id: Option<u128>,
) -> (res: Option<Vec<RailReceiptFlowRow>>)
    requires
        receipt_amounts_fit(waybills@),
    ensures
        res is None <==> !rail_receipt_sums_defined(waybills@, pipeline_status, contractor_id),
        res matches Some(v) ==> rail_receipt_flow_views(v@) == spec_rail_receipt_flow(
            waybills@,
            pipeline_status,
            contractor_id,
        ),
{
    let mut i: usize = 0;
    while i < waybills.len()
        invariant
            i <= waybills.len(),
            receipt_amounts_fit(waybills@),
            forall|k: int|
                0 <= k < i && rail_receipt_listed(#[trigger] waybills@[k], pipeline_status, contractor_id)
                    ==> receipt_actual_defined(rail_acting_acceptance(waybills@[k])),
        decreases waybills.len() - i,
    {
        let wb = &waybills[i];
        let acc = if wb.acceptances.len() > 0 {
            Some(&wb.acceptances[0])
        } else {
            None
        };
        let listed = match contractor_id {
            Some(c) => c == wb.sender_id,
            None => true,
        } && status_check(pipeline_status, receipt_status_of(acc));
        if listed {
            match acc {
                Some(a) => {
                    assert(all_fit(waybills@[i as int].acceptances@[0].item_amounts@));
                    if a.item_amounts.len() > 0 && total(&a.item_amounts).is_none() {
                        return None;
                    }
                },
                None => {},
            }
        }
        i = i + 1;
    }
    Some(rail_receipt_flow_rows(waybills, pipeline_status, contractor_id))
}

// ---------------------------------------------------------------------------
// Cargo flow: one row per document of every kind
// ---------------------------------------------------------------------------

/// One row of the cargo flow.
#[derive(Debug, Clone)]
pub struct CargoFlowRow {
    pub id: u128,
    pub document_number: String,
    pub date: String,
    pub flow_type: FlowType,
    pub operation: String,
    pub contractor_id: Option<u128>,
    pub contractor_name: Option<String>,
    pub product_name: Option<String>,
    pub quantity: Option<Quantity>,
    pub status: PipelineStatus,
    pub entity_type: FlowEntityType,
    pub flow_route: String,
}

/// A cargo flow row with its texts as character sequences.
pub struct CargoFlowRowView {
    pub id: u128,
    pub document_number: Seq<char>,
    pub date: Seq<char>,
    pub flow_type: FlowType,
    pub operation: Seq<char>,
    pub contractor_id: Option<u128>,
    pub contractor_name: Option<Seq<char>>,
    pub product_name: Option<Seq<char>>,
    pub quantity: Option<Quantity>,
    pub status: PipelineStatus,
    pub entity_type: FlowEntityType,
    pub flow_route: Seq<char>,
}

impl View for CargoFlowRow {
    type V = CargoFlowRowView;

    open spec fn view(&self) -> CargoFlowRowView {
        CargoFlowRowView {
            id: self.id,
            document_number: self.document_number@,
            date: self.date@,
            flow_type: self.flow_type,
            operation: self.operation@,
            contractor_id: self.contractor_id,
            contractor_name: opt_text(self.contractor_name),
            product_name: opt_text(self.product_name),
            quantity: self.quantity,
            status: self.status,
            entity_type: self.entity_type,
            flow_route: self.flow_route@,
        }
    }
}

/// The views of cargo flow rows.
pub open spec fn cargo_flow_row_views(rows: Seq<CargoFlowRow>) -> Seq<CargoFlowRowView> {
    rows.map_values(|r: CargoFlowRow| r@)
}

/// The rows of the listed documents, in their order.
pub open spec fn listed_rows<T>(
    docs: Seq<T>,
    listed: spec_fn(T) -> bool,
    row: spec_fn(T) -> CargoFlowRowView,
) -> Seq<CargoFlowRowView>
    decreases docs.len(),
{
    if docs.len() == 0 {
        Seq::empty()
    } else {
        let prev = listed_rows(docs.drop_last(), listed, row);
        if listed(docs.last()) {
            prev.push(row(docs.last()))
        } else {
            prev
        }
    }
}

proof fn lemma_listed_rows_step<T>(
    docs: Seq<T>,
    i: int,
    listed: spec_fn(T) -> bool,
    row: spec_fn(T) -> CargoFlowRowView,
)
    requires
        0 <= i < docs.len(),
    ensures
        listed_rows(docs.take(i + 1), listed, row) == if listed(docs[i]) {
            listed_rows(docs.take(i), listed, row).push(row(docs[i]))
        } else {
            listed_rows(docs.take(i), listed, row)
        },
{
    assert(docs.take(i + 1).drop_last() =~= docs.take(i));
    assert(docs.take(i + 1).last() == docs[i]);
}

// -- Dispatch documents -----------------------------------------------------

/// The operation of a dispatch by its method and purpose.
pub open spec fn dispatch_operation(method: DispatchMethod, purpose: DispatchPurpose) -> Seq<char> {
    match method {
        DispatchMethod::Bunkering => "Bunkering"@,
        DispatchMethod::VesselTerminal => "Direct Dispatch"@,
        DispatchMethod::Truck => match purpose {
            DispatchPurpose::Internal => "Internal Dispatch"@,
            DispatchPurpose::External => "Truck Dispatch"@,
        },
    }
}

/// The route of a dispatch by its method and purpose.
pub open spec fn dispatch_route(method: DispatchMethod, purpose: DispatchPurpose) -> Seq<char> {
    match method {
        DispatchMethod::Bunkering => "/outgoing/bunkering"@,
        DispatchMethod::VesselTerminal => "/outgoing/direct"@,
        DispatchMethod::Truck => match purpose {
            DispatchPurpose::Internal => "/outgoing/direct"@,
            DispatchPurpose::External => "/outgoing/truck"@,
        },
    }
}

fn dispatch_labels(method: DispatchMethod, purpose: DispatchPurpose) -> (res: (String, String))
    ensures
        res.0@ == dispatch_operation(method, purpose),
        res.1@ == dispatch_route(method, purpose),
{
    match method {
        DispatchMethod::Bunkering => (String::from_str("Bunkering"), String::from_str("/outgoing/bunkering")),
        DispatchMethod::VesselTerminal => (String::from_str("Direct Dispatch"), String::from_str("/outgoing/direct")),
        DispatchMethod::Truck => match purpose {
            DispatchPurpose::Internal => (String::from_str("Internal Dispatch"), String::from_str("/outgoing/direct")),
            DispatchPurpose::External => (String::from_str("Truck Dispatch"), String::from_str("/outgoing/truck")),
        },
    }
}

/// Whether a dispatch is listed in the cargo flow: of the filtered contractor,
/// with a status that passes the filter (never pending) and the filtered
/// operation.
pub open spec fn dispatch_flow_listed(
    d: LoadedDispatchFlow,
    operation: Option<Seq<char>>,
    status: Option<PipelineStatus>,
    contractor_id: Option<u128>,
) -> bool {
    &&& id_passes(contractor_id, d.contractor_id)
    &&& status_passes(status, pipeline_status_of(Some(d.status)))
    &&& text_filter_passes(operation, dispatch_operation(d.dispatch_method, d.dispatch_purpose))
}

/// The cargo flow row of a dispatch: outgoing, its contractor's name or
/// "Unknown", and its first item's product and amount.
pub open spec fn dispatch_flow_row_of(d: LoadedDispatchFlow) -> CargoFlowRowView {
    CargoFlowRowView {
        id: d.id,
        document_number: d.document_number@,
        date: d.date@,
        flow_type: FlowType::Outgoing,
        operation: dispatch_operation(d.dispatch_method, d.dispatch_purpose),
        contractor_id: Some(d.contractor_id),
        contractor_name: Some(name_or(d.contractor_name, unknown_text())),
        product_name: line_product(d.first_item),
        quantity: line_amount(d.first_item),
        status: pipeline_status_of(Some(d.status)),
        entity_type: FlowEntityType::Dispatch,
        flow_route: dispatch_route(d.dispatch_method, d.dispatch_purpose),
    }
}

/// The cargo flow rows of the loaded dispatches.
pub open spec fn spec_dispatch_flow_rows(
    docs: Seq<LoadedDispatchFlow>,
    operation: Option<Seq<char>>,
    status: Option<PipelineStatus>,
    contractor_id: Option<u128>,
) -> Seq<CargoFlowRowView> {
    listed_rows(
        docs,
        |d: LoadedDispatchFlow| dispatch_flow_listed(d, operation, status, contractor_id),
        |d: LoadedDispatchFlow| dispatch_flow_row_of(d),
    )
}

/// The cargo flow rows of the loaded dispatch documents, in their order.
pub fn dispatch_flow_rows(
    docs: &Vec<LoadedDispatchFlow>,
    operation: Option<&str>,
    status: Option<PipelineStatus>,
    contractor_id: Option<u128>,
) -> (res: Vec<CargoFlowRow>)
    ensures
        cargo_flow_row_views(res@) == spec_dispatch_flow_rows(docs@, opt_str(operation), status, contractor_id),
{
    let ghost listed = |d: LoadedDispatchFlow| dispatch_flow_listed(d, opt_str(operation), status, contractor_id);
    let ghost row_of = |d: LoadedDispatchFlow| dispatch_flow_row_of(d);
    let mut rows: Vec<CargoFlowRow> = Vec::new();
    let mut i: usize = 0;
    while i < docs.len()
        invariant
            i <= docs.len(),
            listed == (|d: LoadedDispatchFlow| dispatch_flow_listed(d, opt_str(operation), status, contractor_id)),
            row_of == (|d: LoadedDispatchFlow| dispatch_flow_row_of(d)),
            cargo_flow_row_views(rows@) == listed_rows(docs@.take(i as int), listed, row_of),
        decreases docs.len() - i,
    {
        proof {
            lemma_listed_rows_step(docs@, i as int, listed, row_of);
        }
        let d = &docs[i];
        let (op, route) = dispatch_labels(d.dispatch_method, d.dispatch_purpose);
        let st = PipelineStatus::from_doc_status(Some(&d.status));
        let passes = match contractor_id {
            Some(c) => c == d.contractor_id,
            None => true,
        } && status_check(status, st) && text_filter_check(operation, op.as_str());
        if passes {
            let row = CargoFlowRow {
                id: d.id,
                document_number: d.document_number.clone(),
                date: d.date.clone(),
                flow_type: FlowType::Outgoing,
                operation: op,
                contractor_id: Some(d.contractor_id),
                contractor_name: Some(name_or_unknown(&d.contractor_name)),
                product_name: line_product_name(&d.first_item),
                quantity: match &d.first_item {
                    Some(l) => Some(l.amount),
                    None => None,
                },
                status: st,
                entity_type: FlowEntityType::Dispatch,
                flow_route: route,
            };
            let ghost prev = rows@;
            rows.push(row);
            assert(cargo_flow_row_views(rows@) =~= cargo_flow_row_views(prev).push(row@));
        }
        i = i + 1;
    }
    assert(docs@.take(docs.len() as int) =~= docs@);
    rows
}

// -- Acceptance documents ---------------------------------------------------

/// An acceptance document as loaded for the cargo flow: its links, the sender of
/// the waybill it is linked to (the truck waybill when it has one, else the rail
/// waybill) when that waybill was found, that sender's resolved name, and its
/// first item.
#[derive(Debug, Clone)]
pub struct LoadedAcceptanceFlow {
    pub id: u128,
    pub document_number: String,
    pub date_accepted: String,
    pub status: DocumentStatus,
    pub truck_waybill_id: Option<u128>,
    pub rail_waybill_id: Option<u128>,
    pub transit_dispatch_id: Option<u128>,
    pub waybill_sender_id: Option<u128>,
    pub sender_name: Option<String>,
    pub first_item: Option<FirstLine>,
}

/// The operation of an acceptance by its links.
pub open spec fn acceptance_operation(d: LoadedAcceptanceFlow) -> Seq<char> {
    if d.truck_waybill_id is Some {
        "Truck Receipt"@
    } else if d.rail_waybill_id is Some {
        "Rail Receipt"@
    } else if d.transit_dispatch_id is Some {
        "Transit Receipt"@
    } else {
        "External Acceptance"@
    }
}

/// The route of an acceptance by its links.
pub open spec fn acceptance_route(d: LoadedAcceptanceFlow) -> Seq<char> {
    if d.truck_waybill_id is Some {
        "/incoming/truck"@
    } else if d.rail_waybill_id is Some {
        "/incoming/rail"@
    } else {
        "/incoming/external"@
    }
}

/// The contractor of an acceptance: the sender of its waybill, none for a
/// transit or external acceptance.
pub open spec fn acceptance_contractor(d: LoadedAcceptanceFlow) -> Option<u128> {
    if d.truck_waybill_id is Some || d.rail_waybill_id is Some {
        d.waybill_sender_id
    } else {
        None
    }
}

/// Whether an acceptance is listed in the cargo flow: its status passes the
/// filter (never pending), its operation is the filtered one, and its
/// contractor is the filtered one.
pub open spec fn acceptance_flow_listed(
    d: LoadedAcceptanceFlow,
    operation: Option<Seq<char>>,
    status: Option<PipelineStatus>,
    contractor_id: Option<u128>,
) -> bool {
    &&& status_passes(status, pipeline_status_of(Some(d.status)))
    &&& text_filter_passes(operation, acceptance_operation(d))
    &&& (contractor_id matches Some(c) ==> acceptance_contractor(d) == Some(c))
}

/// The cargo flow row of an acceptance: incoming, its contractor and that
/// contractor's name when it has one, and its first item's product and amount.
pub open spec fn acceptance_flow_row_of(d: LoadedAcceptanceFlow) -> CargoFlowRowView {
    CargoFlowRowView {
        id: d.id,
        document_number: d.document_number@,
        date: d.date_accepted@,
        flow_type: FlowType::Incoming,
        operation: acceptance_operation(d),
        contractor_id: acceptance_contractor(d),
        contractor_name: if acceptance_contractor(d) is Some {
            opt_text(d.sender_name)
        } else {
            None
        },
        product_name: line_product(d.first_item),
        quantity: line_amount(d.first_item),
        status: pipeline_status_of(Some(d.status)),
        entity_type: FlowEntityType::Acceptance,
        flow_route: acceptance_route(d),
    }
}

/// The cargo flow rows of the loaded acceptances.
pub open spec fn spec_acceptance_flow_rows(
    docs: Seq<LoadedAcceptanceFlow>,
    operation: Option<Seq<char>>,
    status: Option<PipelineStatus>,
    contractor_id: Option<u128>,
) -> Seq<CargoFlowRowView> {
    listed_rows(
        docs,
        |d: LoadedAcceptanceFlow| acceptance_flow_listed(d, operation, status, contractor_id),
        |d: LoadedAcceptanceFlow| acceptance_flow_row_of(d),
    )
}

fn acceptance_labels(d: &LoadedAcceptanceFlow) -> (res: (String, String, Option<u128>))
    ensures
        res.0@ == acceptance_operation(*d),
        res.1@ == acceptance_route(*d),
        res.2 == acceptance_contractor(*d),
{
    if d.truck_waybill_id.is_some() {
        (String::from_str("Truck Receipt"), String::from_str("/incoming/truck"), d.waybill_sender_id)
    } else if d.rail_waybill_id.is_some() {
        (String::from_str("Rail Receipt"), String::from_str("/incoming/rail"), d.waybill_sender_id)
    } else if d.transit_dispatch_id.is_some() {
        (String::from_str("Transit Receipt"), String::from_str("/incoming/external"), None)
    } else {
        (String::from_str("External Acceptance"), String::from_str("/incoming/external"), None)
    }
}

/// The cargo flow rows of the loaded acceptance documents, in their order.
pub fn acceptance_flow_rows(
    docs: &Vec<LoadedAcceptanceFlow>,
    operation: Option<&str>,
    status: Option<PipelineStatus>,
    contractor_id: Option<u128>,
) -> (res: Vec<CargoFlowRow>)
    ensures
        cargo_flow_row_views(res@) == spec_acceptance_flow_rows(docs@, opt_str(operation), status, contractor_id),
{
    let ghost listed = |d: LoadedAcceptanceFlow| acceptance_flow_listed(d, opt_str(operation), status, contractor_id);
    let ghost row_of = |d: LoadedAcceptanceFlow| acceptance_flow_row_of(d);
    let mut rows: Vec<CargoFlowRow> = Vec::new();
    let mut i: usize = 0;
    while i < docs.len()
        invariant
            i <= docs.len(),
            listed == (|d: LoadedAcceptanceFlow| acceptance_flow_listed(d, opt_str(operation), status, contractor_id)),
            row_of == (|d: LoadedAcceptanceFlow| acceptance_flow_row_of(d)),
            cargo_flow_row_views(rows@) == listed_rows(docs@.take(i as int), listed, row_of),
        decreases docs.len() - i,
    {
        proof {
            lemma_listed_rows_step(docs@, i as int, listed, row_of);
        }
        let d = &docs[i];
        let (op, route, cid) = acceptance_labels(d);
        let st = PipelineStatus::from_doc_status(Some(&d.status));
        let passes = status_check(status, st) && text_filter_check(operation, op.as_str()) && match contractor_id {
            Some(c) => match cid {
                Some(x) => x == c,
                None => false,
            },
            None => true,
        };
        if passes {
            let row = CargoFlowRow {
                id: d.id,
                document_number: d.document_number.clone(),
                date: d.date_accepted.clone(),
                flow_type: FlowType::Incoming,
                operation: op,
                contractor_id: cid,
                contractor_name: match cid {
                    Some(_) => d.sender_name.clone(),
                    None => None,
                },
                product_name: line_product_name(&d.first_item),
                quantity: match &d.first_item {
                    Some(l) => Some(l.amount),
                    None => None,
                },
                status: st,
                entity_type: FlowEntityType::Acceptance,
                flow_route: route,
            };
            let ghost prev = rows@;
            rows.push(row);
            assert(cargo_flow_row_views(rows@) =~= cargo_flow_row_views(prev).push(row@));
        }
        i = i + 1;
    }
    assert(docs@.take(docs.len() as int) =~= docs@);
    rows
}

// -- Pending waybills ----------------------------------------------------------

/// A waybill as loaded for the pending part of the cargo flow: its sender's
/// resolved name, and whether a (not deleted) acceptance document is linked to
/// it.
#[derive(Debug, Clone)]
pub struct LoadedPendingWaybill {
    pub id: u128,
    pub document_number: String,
    pub date: String,
    pub sender_id: u128,
    pub sender_name: Option<String>,
    pub has_acceptance: bool,
}

/// Whether a waybill is listed as pending: of the filtered sender and without
/// an acceptance.
pub open spec fn pending_listed(w: LoadedPendingWaybill, contractor_id: Option<u128>) -> bool {
    id_passes(contractor_id, w.sender_id) && !w.has_acceptance
}

/// The cargo flow row of a pending waybill (truck when `rail` is false).
pub open spec fn pending_row_of(w: LoadedPendingWaybill, rail: bool) -> CargoFlowRowView {
    CargoFlowRowView {
        id: w.id,
        document_number: w.document_number@,
        date: w.date@,
        flow_type: FlowType::Incoming,
        operation: if rail {
            "Rail Receipt"@
        } else {
            "Truck Receipt"@
        },
        contractor_id: Some(w.sender_id),
        contractor_name: Some(name_or(w.sender_name, unknown_text())),
        product_name: None,
        quantity: None,
        status: PipelineStatus::Pending,
        entity_type: if rail {
            FlowEntityType::RailWaybill
        } else {
            FlowEntityType::TruckWaybill
        },
        flow_route: if rail {
            "/incoming/rail"@
        } else {
            "/incoming/truck"@
        },
    }
}

/// The pending rows of the loaded waybills of one kind.
pub open spec fn spec_pending_rows(
    waybills: Seq<LoadedPendingWaybill>,
    rail: bool,
    contractor_id: Option<u128>,
) -> Seq<CargoFlowRowView> {
    listed_rows(
        waybills,
        |w: LoadedPendingWaybill| pending_listed(w, contractor_id),
        |w: LoadedPendingWaybill| pending_row_of(w, rail),
    )
}

/// The pending part of the cargo flow: the truck waybills without acceptance
/// when the operation filter allows "Truck Receipt", then the rail waybills
/// without acceptance when it allows "Rail Receipt".
pub open spec fn spec_pending_waybill_rows(
    truck: Seq<LoadedPendingWaybill>,
    rail: Seq<LoadedPendingWaybill>,
    operation: Option<Seq<char>>,
    contractor_id: Option<u128>,
) -> Seq<CargoFlowRowView> {
    (if text_filter_passes(operation, "Truck Receipt"@) {
        spec_pending_rows(truck, false, contractor_id)
    } else {
        Seq::empty()
    }) + (if text_filter_passes(operation, "Rail Receipt"@) {
        spec_pending_rows(rail, true, contractor_id)
    } else {
        Seq::empty()
    })
}

fn pending_rows(waybills: &Vec<LoadedPendingWaybill>, rail: bool, contractor_id: Option<u128>) -> (res: Vec<
    CargoFlowRow,
>)
    ensures
        cargo_flow_row_views(res@) == spec_pending_rows(waybills@, rail, contractor_id),
{
    let ghost listed = |w: LoadedPendingWaybill| pending_listed(w, contractor_id);
    let ghost row_of = |w: LoadedPendingWaybill| pending_row_of(w, rail);
    let mut rows: Vec<CargoFlowRow> = Vec::new();
    let mut i: usize = 0;
    while i < waybills.len()
        invariant
            i <= waybills.len(),
            listed == (|w: LoadedPendingWaybill| pending_listed(w, contractor_id)),
            row_of == (|w: LoadedPendingWaybill| pending_row_of(w, rail)),
            cargo_flow_row_views(rows@) == listed_rows(waybills@.take(i as int), listed, row_of),
        decreases waybills.len() - i,
    {
        proof {
            lemma_listed_rows_step(waybills@, i as int, listed, row_of);
        }
        let w = &waybills[i];
        let passes = match contractor_id {
            Some(c) => c == w.sender_id,
            None => true,
        } && !w.has_acceptance;
        if passes {
            let row = CargoFlowRow {
                id: w.id,
                document_number: w.document_number.clone(),
                date: w.date.clone(),
                flow_type: FlowType::Incoming,
                operation: if rail {
                    String::from_str("Rail Receipt")
                } else {
                    String::from_str("Truck Receipt")
                },
                contractor_id: Some(w.sender_id),
                contractor_name: Some(name_or_unknown(&w.sender_name)),
                product_name: None,
                quantity: None,
                status: PipelineStatus::Pending,
                entity_type: if rail {
                    FlowEntityType::RailWaybill
                } else {
                    FlowEntityType::TruckWaybill
                },
                flow_route: if rail {
                    String::from_str("/incoming/rail")
                } else {
                    String::from_str("/incoming/truck")
                },
            };
            let ghost prev = rows@;
            rows.push(row);
            assert(cargo_flow_row_views(rows@) =~= cargo_flow_row_views(prev).push(row@));
        }
        i = i + 1;
    }
    assert(waybills@.take(waybills.len() as int) =~= waybills@);
    rows
}

/// The rows of the appended vectors, in order.
proof fn lemma_views_append(a: Seq<CargoFlowRow>, b: Seq<CargoFlowRow>)
    ensures
        cargo_flow_row_views(a + b) == cargo_flow_row_views(a) + cargo_flow_row_views(b),
{
    assert(cargo_flow_row_views(a + b) =~= cargo_flow_row_views(a) + cargo_flow_row_views(b));
}

/// The pending waybills of the cargo flow: truck waybills, then rail waybills,
/// without an acceptance, of the filtered sender and operation.
pub fn pending_waybill_rows(
    truck: &Vec<LoadedPendingWaybill>,
    rail: &Vec<LoadedPendingWaybill>,
    operation: Option<&str>,
    contractor_id: Option<u128>,
) -> (res: Vec<CargoFlowRow>)
    ensures
        cargo_flow_row_views(res@) == spec_pending_waybill_rows(truck@, rail@, opt_str(operation), contractor_id),
{
    proof {
        reveal_strlit("Truck Receipt");
        reveal_strlit("Rail Receipt");
    }
    let mut rows: Vec<CargoFlowRow> = if text_filter_check(operation, "Truck Receipt") {
        pending_rows(truck, false, contractor_id)
    } else {
        Vec::new()
    };
    let ghost first = rows@;
    let mut more: Vec<CargoFlowRow> = if text_filter_check(operation, "Rail Receipt") {
        pending_rows(rail, true, contractor_id)
    } else {
        Vec::new()
    };
    let ghost second = more@;
    rows.append(&mut more);
    proof {
        lemma_views_append(first, second);
        assert(cargo_flow_row_views(Seq::<CargoFlowRow>::empty()) =~= Seq::<CargoFlowRowView>::empty());
    }
    rows
}

// -- Blending documents -----------------------------------------------------

/// A blending document as loaded for the cargo flow: its contractor's and its
/// target product's resolved names.
#[derive(Debug, Clone)]
pub struct LoadedBlendingFlow {
    pub id: u128,
    pub document_number: String,
    pub date: String,
    pub contractor_id: u128,
    pub contractor_name: Option<String>,
    pub target_product_name: Option<String>,
    pub status: DocumentStatus,
}

/// Whether a blending is listed in the cargo flow: of the filtered contractor,
/// with a status that passes the filter.
pub open spec fn blending_flow_listed(
    d: LoadedBlendingFlow,
    status: Option<PipelineStatus>,
    contractor_id: Option<u128>,
) -> bool {
    id_passes(contractor_id, d.contractor_id) && status_passes(status, pipeline_status_of(Some(d.status)))
}

/// The cargo flow row of a blending: internal, its contractor's name or
/// "Unknown", its target product, and no single quantity.
pub open spec fn blending_flow_row_of(d: LoadedBlendingFlow) -> CargoFlowRowView {
    CargoFlowRowView {
        id: d.id,
        document_number: d.document_number@,
        date: d.date@,
        flow_type: FlowType::Internal,
        operation: "Blending"@,
        contractor_id: Some(d.contractor_id),
        contractor_name: Some(name_or(d.contractor_name, unknown_text())),
        product_name: opt_text(d.target_product_name),
        quantity: None,
        status: pipeline_status_of(Some(d.status)),
        entity_type: FlowEntityType::Blending,
        flow_route: "/internal/blending"@,
    }
}

/// The cargo flow rows of the loaded blendings.
pub open spec fn spec_blending_flow_rows(
    docs: Seq<LoadedBlendingFlow>,
    status: Option<PipelineStatus>,
    contractor_id: Option<u128>,
) -> Seq<CargoFlowRowView> {
    listed_rows(
        docs,
        |d: LoadedBlendingFlow| blending_flow_listed(d, status, contractor_id),
        |d: LoadedBlendingFlow| blending_flow_row_of(d),
    )
}

/// The cargo flow rows of the loaded blending documents, in their order.
pub fn blending_flow_rows(
    docs: &Vec<LoadedBlendingFlow>,
    status: Option<PipelineStatus>,
    contractor_id: Option<u128>,
) -> (res: Vec<CargoFlowRow>)
    ensures
        cargo_flow_row_views(res@) == spec_blending_flow_rows(docs@, status, contractor_id),
{
    let ghost listed = |d: LoadedBlendingFlow| blending_flow_listed(d, status, contractor_id);
    let ghost row_of = |d: LoadedBlendingFlow| blending_flow_row_of(d);
    let mut rows: Vec<CargoFlowRow> = Vec::new();
    let mut i: usize = 0;
    while i < docs.len()
        invariant
            i <= docs.len(),
            listed == (|d: LoadedBlendingFlow| blending_flow_listed(d, status, contractor_id)),
            row_of == (|d: LoadedBlendingFlow| blending_flow_row_of(d)),
            cargo_flow_row_views(rows@) == listed_rows(docs@.take(i as int), listed, row_of),
        decreases docs.len() - i,
    {
        proof {
            lemma_listed_rows_step(docs@, i as int, listed, row_of);
        }
        let d = &docs[i];
        let st = PipelineStatus::from_doc_status(Some(&d.status));
        let passes = match contractor_id {
            Some(c) => c == d.contractor_id,
            None => true,
        } && status_check(status, st);
        if passes {
            let row = CargoFlowRow {
                id: d.id,
                document_number: d.document_number.clone(),
                date: d.date.clone(),
                flow_type: FlowType::Internal,
                operation: String::from_str("Blending"),
                contractor_id: Some(d.contractor_id),
                contractor_name: Some(name_or_unknown(&d.contractor_name)),
                product_name: d.target_product_name.clone(),
                quantity: None,
                status: st,
                entity_type: FlowEntityType::Blending,
                flow_route: String::from_str("/internal/blending"),
            };
            let ghost prev = rows@;
            rows.push(row);
            assert(cargo_flow_row_views(rows@) =~= cargo_flow_row_views(prev).push(row@));
        }
        i = i + 1;
    }
    assert(docs@.take(docs.len() as int) =~= docs@);
    rows
}

// -- Physical transfers, ownership transfers, reconciliations ---------------

/// The first line of a transfer or reconciliation as loaded: its contractor (for
/// an ownership transfer, the giving one) with its resolved name, its product's
/// resolved name and its amount.
#[derive(Debug, Clone)]
pub struct PartyLine {
    pub contractor_id: u128,
    pub contractor_name: Option<String>,
    pub product_name: Option<String>,
    pub amount: Quantity,
}

/// A physical transfer, ownership transfer or reconciliation as loaded for the
/// cargo flow, with its first line.
#[derive(Debug, Clone)]
pub struct LoadedLineFlow {
    pub id: u128,
    pub document_number: String,
    pub date: String,
    pub status: DocumentStatus,
    pub first_line: Option<PartyLine>,
}

/// The document kinds whose cargo flow rows come from their first line.
#[derive(Debug, Clone, Copy, PartialEq, Eq, Structural)]
pub enum LineFlowKind {
    PhysicalTransfer,
    OwnershipTransfer,
    Reconciliation,
}

/// The contractor of a document with a first line: that line's.
pub open spec fn line_contractor(d: LoadedLineFlow) -> Option<u128> {
    match d.first_line {
        Some(l) => Some(l.contractor_id),
        None => None,
    }
}

/// Whether such a document is listed: its status passes the filter and its
/// contractor is the filtered one.
pub open spec fn line_flow_listed(d: LoadedLineFlow, status: Option<PipelineStatus>, contractor_id: Option<u128>) -> bool {
    &&& status_passes(status, pipeline_status_of(Some(d.status)))
    &&& (contractor_id matches Some(c) ==> line_contractor(d) == Some(c))
}

/// The operation of a kind.
pub open spec fn line_operation(kind: LineFlowKind) -> Seq<char> {
    match kind {
        LineFlowKind::PhysicalTransfer => "Physical Transfer"@,
        LineFlowKind::OwnershipTransfer => "Ownership Transfer"@,
        LineFlowKind::Reconciliation => "Inventory Reconciliation"@,
    }
}

/// The route of a kind.
pub open spec fn line_route(kind: LineFlowKind) -> Seq<char> {
    match kind {
        LineFlowKind::PhysicalTransfer => "/internal/physical-transfer"@,
        LineFlowKind::OwnershipTransfer => "/internal/ownership-transfer"@,
        LineFlowKind::Reconciliation => "/internal/reconciliation"@,
    }
}

/// The entity type of a kind.
pub open spec fn line_entity(kind: LineFlowKind) -> FlowEntityType {
    match kind {
        LineFlowKind::PhysicalTransfer => FlowEntityType::PhysicalTransfer,
        LineFlowKind::OwnershipTransfer => FlowEntityType::OwnershipTransfer,
        LineFlowKind::Reconciliation => FlowEntityType::Reconciliation,
    }
}

/// The cargo flow row of such a document: internal; an ownership transfer,
/// which has no number, shows its id's text; the first line's contractor, name
/// and product; the line's amount as quantity, except for a reconciliation.
pub open spec fn line_flow_row_of(d: LoadedLineFlow, kind: LineFlowKind) -> CargoFlowRowView {
    CargoFlowRowView {
        id: d.id,
        document_number: if kind == LineFlowKind::OwnershipTransfer {
            uuid_text(d.id)
        } else {
            d.document_number@
        },
        date: d.date@,
        flow_type: FlowType::Internal,
        operation: line_operation(kind),
        contractor_id: line_contractor(d),
        contractor_name: match d.first_line {
            Some(l) => opt_text(l.contractor_name),
            None => None,
        },
        product_name: match d.first_line {
            Some(l) => opt_text(l.product_name),
            None => None,
        },
        quantity: match d.first_line {
            Some(l) => if kind == LineFlowKind::Reconciliation {
                None
            } else {
                Some(l.amount)
            },
            None => None,
        },
        status: pipeline_status_of(Some(d.status)),
        entity_type: line_entity(kind),
        flow_route: line_route(kind),
    }
}

/// The cargo flow rows of the loaded documents of one kind.
pub open spec fn spec_line_flow_rows(
    docs: Seq<LoadedLineFlow>,
    kind: LineFlowKind,
    status: Option<PipelineStatus>,
    contractor_id: Option<u128>,
) -> Seq<CargoFlowRowView> {
    listed_rows(
        docs,
        |d: LoadedLineFlow| line_flow_listed(d, status, contractor_id),
        |d: LoadedLineFlow| line_flow_row_of(d, kind),
    )
}

fn line_labels(kind: LineFlowKind) -> (res: (String, String))
    ensures
        res.0@ == line_operation(kind),
        res.1@ == line_route(kind),
{
    match kind {
        LineFlowKind::PhysicalTransfer => (
            String::from_str("Physical Transfer"),
            String::from_str("/internal/physical-transfer"),
        ),
        LineFlowKind::OwnershipTransfer => (
            String::from_str("Ownership Transfer"),
            String::from_str("/internal/ownership-transfer"),
        ),
        LineFlowKind::Reconciliation => (
            String::from_str("Inventory Reconciliation"),
            String::from_str("/internal/reconciliation"),
        ),
    }
}

/// The cargo flow rows of the loaded documents of one kind, in their order.
pub fn line_flow_rows(
    docs: &Vec<LoadedLineFlow>,
    kind: LineFlowKind,
    status: Option<PipelineStatus>,
    contractor_id: Option<u128>,
) -> (res: Vec<CargoFlowRow>)
    ensures
        cargo_flow_row_views(res@) == spec_line_flow_rows(docs@, kind, status, contractor_id),
{
    let ghost listed = |d: LoadedLineFlow| line_flow_listed(d, status, contractor_id);
    let ghost row_of = |d: LoadedLineFlow| line_flow_row_of(d, kind);
    let mut rows: Vec<CargoFlowRow> = Vec::new();
    let mut i: usize = 0;
    while i < docs.len()
        invariant
            i <= docs.len(),
            listed == (|d: LoadedLineFlow| line_flow_listed(d, status, contractor_id)),
            row_of == (|d: LoadedLineFlow| line_flow_row_of(d, kind)),
            cargo_flow_row_views(rows@) == listed_rows(docs@.take(i as int), listed, row_of),
        decreases docs.len() - i,
    {
        proof {
            lemma_listed_rows_step(docs@, i as int, listed, row_of);
        }
        let d = &docs[i];
        let st = PipelineStatus::from_doc_status(Some(&d.status));
        let cid = match &d.first_line {
            Some(l) => Some(l.contractor_id),
            None => None,
        };
        let passes = status_check(status, st) && match contractor_id {
            Some(c) => match cid {
                Some(x) => x == c,
                None => false,
            },
            None => true,
        };
        if passes {
            let (op, route) = line_labels(kind);
            let number = if kind == LineFlowKind::OwnershipTransfer {
                uuid_string(d.id)
            } else {
                d.document_number.clone()
            };
            let (contractor_name, product_name, quantity) = match &d.first_line {
                Some(l) => (
                    l.contractor_name.clone(),
                    l.product_name.clone(),
                    if kind == LineFlowKind::Reconciliation {
                        None
                    } else {
                        Some(l.amount)
                    },
                ),
                None => (None, None, None),
            };
            let row = CargoFlowRow {
                id: d.id,
                document_number: number,
                date: d.date.clone(),
                flow_type: FlowType::Internal,
                operation: op,
                contractor_id: cid,
                contractor_name,
                product_name,
                quantity,
                status: st,
                entity_type: match kind {
                    LineFlowKind::PhysicalTransfer => FlowEntityType::PhysicalTransfer,
                    LineFlowKind::OwnershipTransfer => FlowEntityType::OwnershipTransfer,
                    LineFlowKind::Reconciliation => FlowEntityType::Reconciliation,
                },
                flow_route: route,
            };
            let ghost prev = rows@;
            rows.push(row);
            assert(cargo_flow_row_views(rows@) =~= cargo_flow_row_views(prev).push(row@));
        }
        i = i + 1;
    }
    assert(docs@.take(docs.len() as int) =~= docs@);
    rows
}

/// The cargo flow rows of the loaded physical storage transfers.
pub fn physical_transfer_flow_rows(
    docs: &Vec<LoadedLineFlow>,
    status: Option<PipelineStatus>,
    contractor_id: Option<u128>,
) -> (res: Vec<CargoFlowRow>)
    ensures
        cargo_flow_row_views(res@) == spec_line_flow_rows(docs@, LineFlowKind::PhysicalTransfer, status, contractor_id),
{
    line_flow_rows(docs, LineFlowKind::PhysicalTransfer, status, contractor_id)
}

/// The cargo flow rows of the loaded ownership transfers.
pub fn ownership_transfer_flow_rows(
    docs: &Vec<LoadedLineFlow>,
    status: Option<PipelineStatus>,
    contractor_id: Option<u128>,
) -> (res: Vec<CargoFlowRow>)
    ensures
        cargo_flow_row_views(res@) == spec_line_flow_rows(docs@, LineFlowKind::OwnershipTransfer, status, contractor_id),
{
    line_flow_rows(docs, LineFlowKind::OwnershipTransfer, status, contractor_id)
}

/// The cargo flow rows of the loaded inventory reconciliations.
pub fn reconciliation_flow_rows(
    docs: &Vec<LoadedLineFlow>,
    status: Option<PipelineStatus>,
    contractor_id: Option<u128>,
) -> (res: Vec<CargoFlowRow>)
    ensures
        cargo_flow_row_views(res@) == spec_line_flow_rows(docs@, LineFlowKind::Reconciliation, status, contractor_id),
{
    line_flow_rows(docs, LineFlowKind::Reconciliation, status, contractor_id)
}

// -- The whole cargo flow ---------------------------------------------------

/// Everything the store loads for the cargo flow: the (not deleted) documents of
/// each kind with their linked rows and resolved names.
#[derive(Debug, Clone)]
pub struct CargoFlowSources {
    pub dispatches: Vec<LoadedDispatchFlow>,
    pub acceptances: Vec<LoadedAcceptanceFlow>,
    pub truck_waybills: Vec<LoadedPendingWaybill>,
    pub rail_waybills: Vec<LoadedPendingWaybill>,
    pub blendings: Vec<LoadedBlendingFlow>,
    pub physical_transfers: Vec<LoadedLineFlow>,
    pub ownership_transfers: Vec<LoadedLineFlow>,
    pub reconciliations: Vec<LoadedLineFlow>,
}

/// Whether an optional flow type filter passes a flow type.
pub open spec fn flow_passes(filter: Option<FlowType>, flow_type: FlowType) -> bool {
    match filter {
        Some(f) => f == flow_type,
        None => true,
    }
}

fn flow_check(filter: Option<FlowType>, flow_type: FlowType) -> (res: bool)
    ensures
        res == flow_passes(filter, flow_type),
{
    match filter {
        Some(f) => f == flow_type,
        None => true,
    }
}

/// The rows of a part of the cargo flow when it is included, else none.
pub open spec fn part_if(included: bool, rows: Seq<CargoFlowRowView>) -> Seq<CargoFlowRowView> {
    if included {
        rows
    } else {
        Seq::empty()
    }
}

/// All rows of the cargo flow, before ordering, in the order of the parts:
/// dispatches (outgoing); acceptances (incoming); pending waybills (incoming,
/// when the status filter allows pending); then blendings, physical transfers,
/// ownership transfers and reconciliations (internal, each when the operation
/// filter allows its operation).
pub open spec fn spec_cargo_flow_all(
    src: CargoFlowSources,
    flow_type: Option<FlowType>,
    operation: Option<Seq<char>>,
    status: Option<PipelineStatus>,
    contractor_id: Option<u128>,
) -> Seq<CargoFlowRowView> {
    part_if(
        flow_passes(flow_type, FlowType::Outgoing),
        spec_dispatch_flow_rows(src.dispatches@, operation, status, contractor_id),
    ) + part_if(
        flow_passes(flow_type, FlowType::Incoming),
        spec_acceptance_flow_rows(src.acceptances@, operation, status, contractor_id),
    ) + part_if(
        flow_passes(flow_type, FlowType::Incoming) && status_passes(status, PipelineStatus::Pending),
        spec_pending_waybill_rows(src.truck_waybills@, src.rail_waybills@, operation, contractor_id),
    ) + part_if(
        flow_passes(flow_type, FlowType::Internal) && text_filter_passes(operation, "Blending"@),
        spec_blending_flow_rows(src.blendings@, status, contractor_id),
    ) + part_if(
        flow_passes(flow_type, FlowType::Internal) && text_filter_passes(operation, "Physical Transfer"@),
        spec_line_flow_rows(src.physical_transfers@, LineFlowKind::PhysicalTransfer, status, contractor_id),
    ) + part_if(
        flow_passes(flow_type, FlowType::Internal) && text_filter_passes(operation, "Ownership Transfer"@),
        spec_line_flow_rows(src.ownership_transfers@, LineFlowKind::OwnershipTransfer, status, contractor_id),
    ) + part_if(
        flow_passes(flow_type, FlowType::Internal) && text_filter_passes(operation, "Inventory Reconciliation"@),
        spec_line_flow_rows(src.reconciliations@, LineFlowKind::Reconciliation, status, contractor_id),
    )
}

/// The rows in `sorted` (newest first) with `row` inserted after every row that
/// is not older: a stable insertion.
pub open spec fn insert_by_date(sorted: Seq<CargoFlowRowView>, row: CargoFlowRowView) -> Seq<CargoFlowRowView>
    decreases sorted.len(),
{
    if sorted.len() == 0 {
        seq![row]
    } else if !text_lt(sorted.last().date, row.date) {
        sorted.push(row)
    } else {
        insert_by_date(sorted.drop_last(), row).push(sorted.last())
    }
}

/// The rows sorted by date text, newest first, rows of equal dates in their
/// given order: what a stable sort with the reversed comparison of the dates
/// gives.
pub open spec fn sort_by_date(rows: Seq<CargoFlowRowView>) -> Seq<CargoFlowRowView>
    decreases rows.len(),
{
    if rows.len() == 0 {
        Seq::empty()
    } else {
        insert_by_date(sort_by_date(rows.drop_last()), rows.last())
    }
}

/// The page of the rows: from `(page - 1) * per_page`, at most `per_page` rows;
/// none when the start is past the end.
pub open spec fn page_of(rows: Seq<CargoFlowRowView>, page: u64, per_page: u64) -> Seq<CargoFlowRowView> {
    let start = (page - 1) * per_page;
    if start >= rows.len() {
        Seq::empty()
    } else {
        rows.subrange(start, if start + per_page < rows.len() {
            start + per_page
        } else {
            rows.len() as int
        })
    }
}

/// A page of the cargo flow: all rows, sorted by date newest first, paged.
pub open spec fn spec_cargo_flow_page(
    src: CargoFlowSources,
    flow_type: Option<FlowType>,
    operation: Option<Seq<char>>,
    status: Option<PipelineStatus>,
    contractor_id: Option<u128>,
    page: u64,
    per_page: u64,
) -> Seq<CargoFlowRowView> {
    page_of(sort_by_date(spec_cargo_flow_all(src, flow_type, operation, status, contractor_id)), page, per_page)
}

proof fn lemma_insert_at(sorted: Seq<CargoFlowRowView>, row: CargoFlowRowView, j: int)
    requires
        0 <= j <= sorted.len(),
        forall|m: int| j <= m < sorted.len() ==> text_lt((#[trigger] sorted[m]).date, row.date),
        j == 0 || !text_lt(sorted[j - 1].date, row.date),
    ensures
        insert_by_date(sorted, row) == sorted.insert(j, row),
    decreases sorted.len(),
{
    if sorted.len() == 0 {
        assert(sorted.insert(j, row) =~= seq![row]);
    } else if j == sorted.len() {
        assert(sorted.last() == sorted[j - 1]);
        assert(sorted.insert(j, row) =~= sorted.push(row));
    } else {
        let n = sorted.len() - 1;
        assert(sorted.last() == sorted[n]);
        assert(text_lt(sorted[n].date, row.date));
        let rest = sorted.drop_last();
        assert forall|m: int| j <= m < rest.len() implies text_lt((#[trigger] rest[m]).date, row.date) by {
            assert(rest[m] == sorted[m]);
        }
        if j > 0 {
            assert(rest[j - 1] == sorted[j - 1]);
        }
        lemma_insert_at(rest, row, j);
        assert(rest.insert(j, row).push(sorted.last()) =~= sorted.insert(j, row));
    }
}

proof fn lemma_views_insert(rows: Seq<CargoFlowRow>, j: int, row: CargoFlowRow)
    requires
        0 <= j <= rows.len(),
    ensures
        cargo_flow_row_views(rows.insert(j, row)) == cargo_flow_row_views(rows).insert(j, row@),
{
    assert(cargo_flow_row_views(rows.insert(j, row)) =~= cargo_flow_row_views(rows).insert(j, row@));
}

/// Inserts a row into rows sorted newest first, after every row that is not
/// older.
fn insert_row_by_date(sorted: &mut Vec<CargoFlowRow>, row: CargoFlowRow)
    ensures
        cargo_flow_row_views(final(sorted)@) == insert_by_date(cargo_flow_row_views(old(sorted)@), row@),
{
    let ghost views = cargo_flow_row_views(sorted@);
    let mut j: usize = sorted.len();
    while j > 0 && text_less(sorted[j - 1].date.as_str(), row.date.as_str())
        invariant
            j <= sorted.len(),
            views == cargo_flow_row_views(sorted@),
            forall|m: int| j <= m < views.len() ==> text_lt((#[trigger] views[m]).date, row@.date),
        decreases j,
    {
        assert(views[j - 1] == sorted@[j - 1]@);
        j = j - 1;
    }
    proof {
        if j > 0 {
            assert(views[j - 1] == sorted@[j - 1]@);
        }
        lemma_insert_at(views, row@, j as int);
        lemma_views_insert(sorted@, j as int, row);
    }
    sorted.insert(j, row);
}

/// The rows sorted by date text, newest first, stably.
pub fn sort_rows_by_date(rows: Vec<CargoFlowRow>) -> (res: Vec<CargoFlowRow>)
    ensures
        cargo_flow_row_views(res@) == sort_by_date(cargo_flow_row_views(rows@)),
{
    let ghost all = cargo_flow_row_views(rows@);
    let mut rest = rows;
    let mut sorted: Vec<CargoFlowRow> = Vec::new();
    let ghost mut k: int = 0;
    while rest.len() > 0
        invariant
            0 <= k <= all.len(),
            cargo_flow_row_views(rest@) == all.skip(k),
            cargo_flow_row_views(sorted@) == sort_by_date(all.take(k)),
        decreases rest.len(),
    {
        assert(cargo_flow_row_views(rest@).len() == rest@.len());
        assert(k < all.len());
        assert(cargo_flow_row_views(rest@)[0] == rest@[0]@);
        let ghost prev = rest@;
        let row = rest.remove(0);
        proof {
            assert(all.skip(k)[0] == row@);
            assert(all.take(k + 1).drop_last() =~= all.take(k));
            assert(all.take(k + 1).last() == all[k]);
            assert(cargo_flow_row_views(rest@) =~= cargo_flow_row_views(prev).drop_first());
            assert(all.skip(k).drop_first() =~= all.skip(k + 1));
            k = k + 1;
        }
        insert_row_by_date(&mut sorted, row);
    }
    assert(all.take(k) =~= all);
    sorted
}

/// The page of the rows: from `(page - 1) * per_page`, at most `per_page` rows;
/// none when the start is past the end.
pub fn page_rows(rows: Vec<CargoFlowRow>, page: u64, per_page: u64) -> (res: Vec<CargoFlowRow>)
    requires
        page >= 1,
        page * per_page <= u64::MAX,
    ensures
        cargo_flow_row_views(res@) == page_of(cargo_flow_row_views(rows@), page, per_page),
{
    assert((page - 1) * per_page + per_page == page * per_page) by (nonlinear_arith);
    assert(0 <= (page - 1) * per_page) by (nonlinear_arith)
        requires
            page >= 1,
    ;
    let start: u64 = (page - 1) * per_page;
    let len: u64 = rows.len() as u64;
    if start >= len {
        return Vec::new();
    }
    let end: u64 = if start + per_page < len {
        start + per_page
    } else {
        len
    };
    let mut rows = rows;
    let ghost before = rows@;
    rows.truncate(end as usize);
    let tail = rows.split_off(start as usize);
    assert(cargo_flow_row_views(tail@) =~= cargo_flow_row_views(before).subrange(start as int, end as int));
    tail
}

/// Appends a part of the cargo flow when it is included.
fn append_part(rows: &mut Vec<CargoFlowRow>, included: bool, part: Vec<CargoFlowRow>)
    ensures
        cargo_flow_row_views(final(rows)@) == cargo_flow_row_views(old(rows)@) + part_if(
            included,
            cargo_flow_row_views(part@),
        ),
{
    let ghost a = rows@;
    if included {
        let mut part = part;
        let ghost b = part@;
        rows.append(&mut part);
        proof {
            lemma_views_append(a, b);
        }
    } else {
        assert(cargo_flow_row_views(rows@) + Seq::<CargoFlowRowView>::empty() =~= cargo_flow_row_views(rows@));
    }
}

/// A page of the cargo flow across every document kind: the rows of each kind
/// under its inclusion conditions, sorted by date text newest first (stably),
/// then the page `page` of `per_page` rows.
pub fn cargo_flow_rows(
    src: &CargoFlowSources,
    flow_type: Option<FlowType>,
    operation: Option<&str>,
    status: Option<PipelineStatus>,
    contractor_id: Option<u128>,
    page: u64,
    per_page: u64,
) -> (res: Vec<CargoFlowRow>)
    requires
        page >= 1,
        page * per_page <= u64::MAX,
    ensures
        cargo_flow_row_views(res@) == spec_cargo_flow_page(
            *src,
            flow_type,
            opt_str(operation),
            status,
            contractor_id,
            page,
            per_page,
        ),
{
    proof {
        reveal_strlit("Blending");
        reveal_strlit("Physical Transfer");
        reveal_strlit("Ownership Transfer");
        reveal_strlit("Inventory Reconciliation");
    }
    let outgoing = flow_check(flow_type, FlowType::Outgoing);
    let incoming = flow_check(flow_type, FlowType::Incoming);
    let internal = flow_check(flow_type, FlowType::Internal);
    let mut rows: Vec<CargoFlowRow> = Vec::new();
    let part = if outgoing {
        dispatch_flow_rows(&src.dispatches, operation, status, contractor_id)
    } else {
        Vec::new()
    };
    append_part(&mut rows, outgoing, part);
    let part = if incoming {
        acceptance_flow_rows(&src.acceptances, operation, status, contractor_id)
    } else {
        Vec::new()
    };
    append_part(&mut rows, incoming, part);
    let pending = incoming && status_check(status, PipelineStatus::Pending);
    let part = if pending {
        pending_waybill_rows(&src.truck_waybills, &src.rail_waybills, operation, contractor_id)
    } else {
        Vec::new()
    };
    append_part(&mut rows, pending, part);
    let blending = internal && text_filter_check(operation, "Blending");
    let part = if blending {
        blending_flow_rows(&src.blendings, status, contractor_id)
    } else {
        Vec::new()
    };
    append_part(&mut rows, blending, part);
    let physical = internal && text_filter_check(operation, "Physical Transfer");
    let part = if physical {
        physical_transfer_flow_rows(&src.physical_transfers, status, contractor_id)
    } else {
        Vec::new()
    };
    append_part(&mut rows, physical, part);
    let ownership = internal && text_filter_check(operation, "Ownership Transfer");
    let part = if ownership {
        ownership_transfer_flow_rows(&src.ownership_transfers, status, contractor_id)
    } else {
        Vec::new()
    };
    append_part(&mut rows, ownership, part);
    let reconciliation = internal && text_filter_check(operation, "Inventory Reconciliation");
    let part = if reconciliation {
        reconciliation_flow_rows(&src.reconciliations, status, contractor_id)
    } else {
        Vec::new()
    };
    append_part(&mut rows, reconciliation, part);
    assert(cargo_flow_row_views(Seq::<CargoFlowRow>::empty()) =~= Seq::<CargoFlowRowView>::empty());
    assert(cargo_flow_row_views(rows@) =~= spec_cargo_flow_all(*src, flow_type, opt_str(operation), status, contractor_id));
    let sorted = sort_rows_by_date(rows);
    page_rows(sorted, page, per_page)
}

} // verus!
