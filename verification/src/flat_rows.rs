//! Flat listings of documents: one row per document line, or a single
//! placeholder row for a document that has no line yet. Names come from the
//! joined companies, products and storages; a missing name shows as an em dash
//! or as the empty text, as each listing says.
use vstd::prelude::*;
use std::collections::HashMap;
use vstd::string::StringExecFns;

use crate::enums::{AdjustmentType, DispatchMethod, DispatchPurpose, DocumentStatus};
use crate::quantity::Quantity;

verus! {

broadcast use vstd::std_specs::hash::group_hash_axioms;

// ---------------------------------------------------------------------------
// Shared labels
// ---------------------------------------------------------------------------

/// The placeholder of a missing value: an em dash.
pub open spec fn dash_text() -> Seq<char> {
    "\u{2014}"@
}

/// The text of an optional name, or `default` when there is none.
pub open spec fn name_or(name: Option<String>, default: Seq<char>) -> Seq<char> {
    match name {
        Some(n) => n@,
        None => default,
    }
}

/// The texts of an optional text.
pub open spec fn opt_text(t: Option<String>) -> Option<Seq<char>> {
    match t {
        Some(s) => Some(s@),
        None => None,
    }
}

/// The placeholder text.
pub fn dash() -> (res: String)
    ensures
        res@ == dash_text(),
{
    String::from_str("\u{2014}")
}

/// The name, or the placeholder when there is none.
pub fn name_or_dash(name: &Option<String>) -> (res: String)
    ensures
        res@ == name_or(*name, dash_text()),
{
    match name {
        Some(n) => n.clone(),
        None => dash(),
    }
}

/// The name, or the empty text when there is none.
pub fn name_or_empty(name: &Option<String>) -> (res: String)
    ensures
        res@ == name_or(*name, Seq::empty()),
{
    match name {
        Some(n) => n.clone(),
        None => String::new(),
    }
}

/// The name that `names` gives to `id`, or `default` when it gives none.
pub open spec fn mapped_name_or(names: Map<u128, String>, id: u128, default: Seq<char>) -> Seq<char> {
    if names.dom().contains(id) {
        names[id]@
    } else {
        default
    }
}

/// The name that `names` gives to `id`, or the placeholder.
pub fn mapped_name_or_dash(names: &HashMap<u128, String>, id: u128) -> (res: String)
    ensures
        res@ == mapped_name_or(names@, id, dash_text()),
{
    match names.get(&id) {
        Some(n) => n.clone(),
        None => dash(),
    }
}

/// The name that `names` gives to `id`, or the empty text.
pub fn mapped_name_or_empty(names: &HashMap<u128, String>, id: u128) -> (res: String)
    ensures
        res@ == mapped_name_or(names@, id, Seq::empty()),
{
    match names.get(&id) {
        Some(n) => n.clone(),
        None => String::new(),
    }
}

// ---------------------------------------------------------------------------
// Dispatch documents
// ---------------------------------------------------------------------------

/// A dispatch line as loaded with the names of its product and storage.
#[derive(Debug, Clone)]
pub struct DispatchLine {
    pub id: u128,
    pub product_name: Option<String>,
    pub storage_name: Option<String>,
    pub dispatched_amount: Quantity,
}

/// A dispatch document as loaded with its contractor's name and its lines.
#[derive(Debug, Clone)]
pub struct LoadedDispatch {
    pub id: u128,
    pub document_number: String,
    pub date: String,
    pub status: DocumentStatus,
    pub dispatch_method: DispatchMethod,
    pub dispatch_purpose: DispatchPurpose,
    pub contractor_name: Option<String>,
    pub lines: Vec<DispatchLine>,
}

/// One row of the flat dispatch listing.
#[derive(Debug, Clone)]
pub struct DispatchFlatRow {
    pub id: u128,
    pub document_id: u128,
    pub document_number: String,
    pub date: String,
    pub status: DocumentStatus,
    pub dispatch_method: DispatchMethod,
    pub dispatch_purpose: DispatchPurpose,
    pub contractor_id_name: String,
    pub item_id: u128,
    pub product_id_name: String,
    pub storage_id_name: String,
    pub dispatched_amount: Quantity,
}

/// A flat dispatch row with its texts as character sequences.
pub struct DispatchFlatRowView {
    pub id: u128,
    pub document_id: u128,
    pub document_number: Seq<char>,
    pub date: Seq<char>,
    pub status: DocumentStatus,
    pub dispatch_method: DispatchMethod,
    pub dispatch_purpose: DispatchPurpose,
    pub contractor_id_name: Seq<char>,
    pub item_id: u128,
    pub product_id_name: Seq<char>,
    pub storage_id_name: Seq<char>,
    pub dispatched_amount: Quantity,
}

impl View for DispatchFlatRow {
    type V = DispatchFlatRowView;

    open spec fn view(&self) -> DispatchFlatRowView {
        DispatchFlatRowView {
            id: self.id,
            document_id: self.document_id,
            document_number: self.document_number@,
            date: self.date@,
            status: self.status,
            dispatch_method: self.dispatch_method,
            dispatch_purpose: self.dispatch_purpose,
            contractor_id_name: self.contractor_id_name@,
            item_id: self.item_id,
            product_id_name: self.product_id_name@,
            storage_id_name: self.storage_id_name@,
            dispatched_amount: self.dispatched_amount,
        }
    }
}

/// The views of a sequence of flat dispatch rows.
pub open spec fn dispatch_row_views(rows: Seq<DispatchFlatRow>) -> Seq<DispatchFlatRowView> {
    rows.map_values(|r: DispatchFlatRow| r@)
}

/// The row of a dispatch document for one of its lines, or its placeholder row.
pub open spec fn dispatch_row_of(doc: LoadedDispatch, line: Option<DispatchLine>) -> DispatchFlatRowView {
    DispatchFlatRowView {
        id: doc.id,
        document_id: doc.id,
        document_number: doc.document_number@,
        date: doc.date@,
        status: doc.status,
        dispatch_method: doc.dispatch_method,
        dispatch_purpose: doc.dispatch_purpose,
        contractor_id_name: name_or(doc.contractor_name, dash_text()),
        item_id: match line {
            Some(l) => l.id,
            None => doc.id,
        },
        product_id_name: match line {
            Some(l) => name_or(l.product_name, Seq::empty()),
            None => dash_text(),
        },
        storage_id_name: match line {
            Some(l) => name_or(l.storage_name, Seq::empty()),
            None => dash_text(),
        },
        dispatched_amount: match line {
            Some(l) => l.dispatched_amount,
            None => Quantity { mantissa: 0, scale: 0 },
        },
    }
}

/// The rows of the given lines of a dispatch document.
pub open spec fn dispatch_line_rows(doc: LoadedDispatch, lines: Seq<DispatchLine>) -> Seq<DispatchFlatRowView> {
    lines.map_values(|l: DispatchLine| dispatch_row_of(doc, Some(l)))
}

/// The rows of one dispatch document.
pub open spec fn dispatch_doc_rows(doc: LoadedDispatch) -> Seq<DispatchFlatRowView> {
    if doc.lines@.len() == 0 {
        seq![dispatch_row_of(doc, None)]
    } else {
        dispatch_line_rows(doc, doc.lines@)
    }
}

/// The flat listing of dispatch documents, document by document.
pub open spec fn dispatch_listing(docs: Seq<LoadedDispatch>) -> Seq<DispatchFlatRowView>
    decreases docs.len(),
{
    if docs.len() == 0 {
        Seq::empty()
    } else {
        dispatch_listing(docs.drop_last()) + dispatch_doc_rows(docs.last())
    }
}

/// The flat row of a dispatch document for one of its lines, or the document's
/// placeholder row when it has none: placeholders show an em dash for product
/// and storage, the document id as item id and a zero amount.
pub fn dispatch_flat_row(doc: &LoadedDispatch, line: Option<&DispatchLine>) -> (res: DispatchFlatRow)
    ensures
        res@ == dispatch_row_of(
            *doc,
            match line {
                Some(l) => Some(*l),
                None => None,
            },
        ),
{
    let contractor_id_name = name_or_dash(&doc.contractor_name);
    match line {
        Some(item) => DispatchFlatRow {
            id: doc.id,
            document_id: doc.id,
            document_number: doc.document_number.clone(),
            date: doc.date.clone(),
            status: doc.status,
            dispatch_method: doc.dispatch_method,
            dispatch_purpose: doc.dispatch_purpose,
            contractor_id_name,
            item_id: item.id,
            product_id_name: name_or_empty(&item.product_name),
            storage_id_name: name_or_empty(&item.storage_name),
            dispatched_amount: item.dispatched_amount,
        },
        None => DispatchFlatRow {
            id: doc.id,
            document_id: doc.id,
            document_number: doc.document_number.clone(),
            date: doc.date.clone(),
            status: doc.status,
            dispatch_method: doc.dispatch_method,
            dispatch_purpose: doc.dispatch_purpose,
            contractor_id_name,
            item_id: doc.id,
            product_id_name: dash(),
            storage_id_name: dash(),
            dispatched_amount: Quantity { mantissa: 0, scale: 0 },
        },
    }
}

/// The flat listing of the given dispatch documents, in their order.
pub fn dispatch_flat_rows(docs: &Vec<LoadedDispatch>) -> (res: Vec<DispatchFlatRow>)
    ensures
        dispatch_row_views(res@) == dispatch_listing(docs@),
{
    let mut rows: Vec<DispatchFlatRow> = Vec::new();
    let mut i: usize = 0;
    while i < docs.len()
        invariant
            i <= docs.len(),
            dispatch_row_views(rows@) == dispatch_listing(docs@.take(i as int)),
        decreases docs.len() - i,
    {
        let doc = &docs[i];
        assert(docs@.take(i + 1).drop_last() =~= docs@.take(i as int));
        let ghost before = dispatch_row_views(rows@);
        if doc.lines.len() == 0 {
            let row = dispatch_flat_row(doc, None);
            rows.push(row);
            assert(dispatch_row_views(rows@) =~= before + dispatch_doc_rows(*doc));
        } else {
            let mut j: usize = 0;
            while j < doc.lines.len()
                invariant
                    j <= doc.lines.len(),
                    doc == docs@[i as int],
                    dispatch_row_views(rows@) == before + dispatch_line_rows(*doc, doc.lines@.take(j as int)),
                decreases doc.lines.len() - j,
            {
                let ghost prev = rows@;
                let row = dispatch_flat_row(doc, Some(&doc.lines[j]));
                rows.push(row);
                assert(dispatch_line_rows(*doc, doc.lines@.take(j + 1)) =~= dispatch_line_rows(
                    *doc,
                    doc.lines@.take(j as int),
                ).push(row@));
                assert(dispatch_row_views(rows@) =~= dispatch_row_views(prev).push(row@));
                j = j + 1;
            }
            assert(doc.lines@.take(doc.lines.len() as int) =~= doc.lines@);
        }
        i = i + 1;
    }
    assert(docs@.take(docs.len() as int) =~= docs@);
    rows
}

// ---------------------------------------------------------------------------
// Acceptance documents
// ---------------------------------------------------------------------------

/// An acceptance line as loaded with the names of its product and storage.
#[derive(Debug, Clone)]
pub struct AcceptanceLine {
    pub id: u128,
    pub product_name: Option<String>,
    pub storage_name: Option<String>,
    pub accepted_amount: Quantity,
}

/// An acceptance document as loaded with its contractor's name and its lines.
#[derive(Debug, Clone)]
pub struct LoadedAcceptance {
    pub id: u128,
    pub document_number: String,
    pub date_accepted: String,
    pub status: DocumentStatus,
    pub source_entity: Option<String>,
    pub contractor_name: Option<String>,
    pub lines: Vec<AcceptanceLine>,
}

/// One row of the flat acceptance listing.
#[derive(Debug, Clone)]
pub struct AcceptanceFlatRow {
    pub id: u128,
    pub document_id: u128,
    pub document_number: String,
    pub date_accepted: String,
    pub status: DocumentStatus,
    pub source_entity: Option<String>,
    pub contractor_id_name: String,
    pub item_id: u128,
    pub product_id_name: String,
    pub storage_id_name: String,
    pub accepted_amount: Quantity,
}

/// A flat acceptance row with its texts as character sequences.
pub struct AcceptanceFlatRowView {
    pub id: u128,
    pub document_id: u128,
    pub document_number: Seq<char>,
    pub date_accepted: Seq<char>,
    pub status: DocumentStatus,
    pub source_entity: Option<Seq<char>>,
    pub contractor_id_name: Seq<char>,
    pub item_id: u128,
    pub product_id_name: Seq<char>,
    pub storage_id_name: Seq<char>,
    pub accepted_amount: Quantity,
}

impl View for AcceptanceFlatRow {
    type V = AcceptanceFlatRowView;

    open spec fn view(&self) -> AcceptanceFlatRowView {
        AcceptanceFlatRowView {
            id: self.id,
            document_id: self.document_id,
            document_number: self.document_number@,
            date_accepted: self.date_accepted@,
            status: self.status,
            source_entity: opt_text(self.source_entity),
            contractor_id_name: self.contractor_id_name@,
            item_id: self.item_id,
            product_id_name: self.product_id_name@,
            storage_id_name: self.storage_id_name@,
            accepted_amount: self.accepted_amount,
        }
    }
}

/// The views of a sequence of flat acceptance rows.
pub open spec fn acceptance_row_views(rows: Seq<AcceptanceFlatRow>) -> Seq<AcceptanceFlatRowView> {
    rows.map_values(|r: AcceptanceFlatRow| r@)
}

/// The row of an acceptance document for one of its lines, or its placeholder row.
pub open spec fn acceptance_row_of(doc: LoadedAcceptance, line: Option<AcceptanceLine>) -> AcceptanceFlatRowView {
    AcceptanceFlatRowView {
        id: doc.id,
        document_id: doc.id,
        document_number: doc.document_number@,
        date_accepted: doc.date_accepted@,
        status: doc.status,
        source_entity: opt_text(doc.source_entity),
        contractor_id_name: name_or(doc.contractor_name, dash_text()),
        item_id: match line {
            Some(l) => l.id,
            None => doc.id,
        },
        product_id_name: match line {
            Some(l) => name_or(l.product_name, Seq::empty()),
            None => dash_text(),
        },
        storage_id_name: match line {
            Some(l) => name_or(l.storage_name, Seq::empty()),
            None => dash_text(),
        },
        accepted_amount: match line {
            Some(l) => l.accepted_amount,
            None => Quantity { mantissa: 0, scale: 0 },
        },
    }
}

/// The rows of the given lines of an acceptance document.
pub open spec fn acceptance_line_rows(doc: LoadedAcceptance, lines: Seq<AcceptanceLine>) -> Seq<AcceptanceFlatRowView> {
    lines.map_values(|l: AcceptanceLine| acceptance_row_of(doc, Some(l)))
}

/// The rows of one acceptance document.
pub open spec fn acceptance_doc_rows(doc: LoadedAcceptance) -> Seq<AcceptanceFlatRowView> {
    if doc.lines@.len() == 0 {
        seq![acceptance_row_of(doc, None)]
    } else {
        acceptance_line_rows(doc, doc.lines@)
    }
}

/// The flat listing of acceptance documents, document by document.
pub open spec fn acceptance_listing(docs: Seq<LoadedAcceptance>) -> Seq<AcceptanceFlatRowView>
    decreases docs.len(),
{
    if docs.len() == 0 {
        Seq::empty()
    } else {
        acceptance_listing(docs.drop_last()) + acceptance_doc_rows(docs.last())
    }
}

/// The flat row of an acceptance document for one of its lines, or the document's
/// placeholder row when it has none: placeholders show an em dash for product
/// and storage, the document id as item id and a zero amount.
pub fn acceptance_flat_row(doc: &LoadedAcceptance, line: Option<&AcceptanceLine>) -> (res: AcceptanceFlatRow)
    ensures
        res@ == acceptance_row_of(
            *doc,
            match line {
                Some(l) => Some(*l),
                None => None,
            },
        ),
{
    let contractor_id_name = name_or_dash(&doc.contractor_name);
    match line {
        Some(item) => AcceptanceFlatRow {
            id: doc.id,
            document_id: doc.id,
            document_number: doc.document_number.clone(),
            date_accepted: doc.date_accepted.clone(),
            status: doc.status,
            source_entity: doc.source_entity.clone(),
            contractor_id_name,
            item_id: item.id,
            product_id_name: name_or_empty(&item.product_name),
            storage_id_name: name_or_empty(&item.storage_name),
            accepted_amount: item.accepted_amount,
        },
        None => AcceptanceFlatRow {
            id: doc.id,
            document_id: doc.id,
            document_number: doc.document_number.clone(),
            date_accepted: doc.date_accepted.clone(),
            status: doc.status,
            source_entity: doc.source_entity.clone(),
            contractor_id_name,
            item_id: doc.id,
            product_id_name: dash(),
            storage_id_name: dash(),
            accepted_amount: Quantity { mantissa: 0, scale: 0 },
        },
    }
}

/// The flat listing of the given acceptance documents, in their order.
pub fn acceptance_flat_rows(docs: &Vec<LoadedAcceptance>) -> (res: Vec<AcceptanceFlatRow>)
    ensures
        acceptance_row_views(res@) == acceptance_listing(docs@),
{
    let mut rows: Vec<AcceptanceFlatRow> = Vec::new();
    let mut i: usize = 0;
    while i < docs.len()
        invariant
            i <= docs.len(),
            acceptance_row_views(rows@) == acceptance_listing(docs@.take(i as int)),
        decreases docs.len() - i,
    {
        let doc = &docs[i];
        assert(docs@.take(i + 1).drop_last() =~= docs@.take(i as int));
        let ghost before = acceptance_row_views(rows@);
        if doc.lines.len() == 0 {
            let row = acceptance_flat_row(doc, None);
            rows.push(row);
            assert(acceptance_row_views(rows@) =~= before + acceptance_doc_rows(*doc));
        } else {
            let mut j: usize = 0;
            while j < doc.lines.len()
                invariant
                    j <= doc.lines.len(),
                    doc == docs@[i as int],
                    acceptance_row_views(rows@) == before + acceptance_line_rows(*doc, doc.lines@.take(j as int)),
                decreases doc.lines.len() - j,
            {
                let ghost prev = rows@;
                let row = acceptance_flat_row(doc, Some(&doc.lines[j]));
                rows.push(row);
                assert(acceptance_line_rows(*doc, doc.lines@.take(j + 1)) =~= acceptance_line_rows(
                    *doc,
                    doc.lines@.take(j as int),
                ).push(row@));
                assert(acceptance_row_views(rows@) =~= acceptance_row_views(prev).push(row@));
                j = j + 1;
            }
            assert(doc.lines@.take(doc.lines.len() as int) =~= doc.lines@);
        }
        i = i + 1;
    }
    assert(docs@.take(docs.len() as int) =~= docs@);
    rows
}

// ---------------------------------------------------------------------------
// Inventory reconciliations
// ---------------------------------------------------------------------------

/// An inventory adjustment as loaded with the names of its product and storage.
#[derive(Debug, Clone)]
pub struct AdjustmentLine {
    pub id: u128,
    pub product_name: Option<String>,
    pub storage_name: Option<String>,
    pub adjustment_type: AdjustmentType,
    pub amount: Quantity,
    pub reason: Option<String>,
}

/// An inventory reconciliation as loaded with the names of its contractor and
/// warehouse and its adjustments.
#[derive(Debug, Clone)]
pub struct LoadedReconciliation {
    pub id: u128,
    pub document_number: String,
    pub date: String,
    pub status: DocumentStatus,
    pub contractor_name: Option<String>,
    pub warehouse_name: Option<String>,
    pub lines: Vec<AdjustmentLine>,
}

/// One row of the flat reconciliation listing.
#[derive(Debug, Clone)]
pub struct ReconciliationFlatRow {
    pub id: u128,
    pub document_id: u128,
    pub document_number: String,
    pub date: String,
    pub status: DocumentStatus,
    pub contractor_id_name: String,
    pub warehouse_id_name: String,
    pub item_id: u128,
    pub product_id_name: String,
    pub storage_id_name: String,
    pub adjustment_type: AdjustmentType,
    pub amount: Quantity,
    pub reason: Option<String>,
}

/// A flat reconciliation row with its texts as character sequences.
pub struct ReconciliationFlatRowView {
    pub id: u128,
    pub document_id: u128,
    pub document_number: Seq<char>,
    pub date: Seq<char>,
    pub status: DocumentStatus,
    pub contractor_id_name: Seq<char>,
    pub warehouse_id_name: Seq<char>,
    pub item_id: u128,
    pub product_id_name: Seq<char>,
    pub storage_id_name: Seq<char>,
    pub adjustment_type: AdjustmentType,
    pub amount: Quantity,
    pub reason: Option<Seq<char>>,
}

impl View for ReconciliationFlatRow {
    type V = ReconciliationFlatRowView;

    open spec fn view(&self) -> ReconciliationFlatRowView {
        ReconciliationFlatRowView {
            id: self.id,
            document_id: self.document_id,
            document_number: self.document_number@,
            date: self.date@,
            status: self.status,
            contractor_id_name: self.contractor_id_name@,
            warehouse_id_name: self.warehouse_id_name@,
            item_id: self.item_id,
            product_id_name: self.product_id_name@,
            storage_id_name: self.storage_id_name@,
            adjustment_type: self.adjustment_type,
            amount: self.amount,
            reason: opt_text(self.reason),
        }
    }
}

/// The views of a sequence of flat reconciliation rows.
pub open spec fn reconciliation_row_views(rows: Seq<ReconciliationFlatRow>) -> Seq<ReconciliationFlatRowView> {
    rows.map_values(|r: ReconciliationFlatRow| r@)
}

/// The row of a reconciliation for one of its adjustments, or its placeholder row.
pub open spec fn reconciliation_row_of(doc: LoadedReconciliation, line: Option<AdjustmentLine>) -> ReconciliationFlatRowView {
    ReconciliationFlatRowView {
        id: doc.id,
        document_id: doc.id,
        document_number: doc.document_number@,
        date: doc.date@,
        status: doc.status,
        contractor_id_name: name_or(doc.contractor_name, dash_text()),
        warehouse_id_name: name_or(doc.warehouse_name, dash_text()),
        item_id: match line {
            Some(l) => l.id,
            None => doc.id,
        },
        product_id_name: match line {
            Some(l) => name_or(l.product_name, Seq::empty()),
            None => dash_text(),
        },
        storage_id_name: match line {
            Some(l) => name_or(l.storage_name, Seq::empty()),
            None => dash_text(),
        },
        adjustment_type: match line {
            Some(l) => l.adjustment_type,
            None => AdjustmentType::Surplus,
        },
        amount: match line {
            Some(l) => l.amount,
            None => Quantity { mantissa: 0, scale: 0 },
        },
        reason: match line {
            Some(l) => opt_text(l.reason),
            None => None,
        },
    }
}

/// The rows of the given adjustments of a reconciliation.
pub open spec fn reconciliation_line_rows(doc: LoadedReconciliation, lines: Seq<AdjustmentLine>) -> Seq<ReconciliationFlatRowView> {
    lines.map_values(|l: AdjustmentLine| reconciliation_row_of(doc, Some(l)))
}

/// The rows of one reconciliation.
pub open spec fn reconciliation_doc_rows(doc: LoadedReconciliation) -> Seq<ReconciliationFlatRowView> {
    if doc.lines@.len() == 0 {
        seq![reconciliation_row_of(doc, None)]
    } else {
        reconciliation_line_rows(doc, doc.lines@)
    }
}

/// The flat listing of reconciliations, document by document.
pub open spec fn reconciliation_listing(docs: Seq<LoadedReconciliation>) -> Seq<ReconciliationFlatRowView>
    decreases docs.len(),
{
    if docs.len() == 0 {
        Seq::empty()
    } else {
        reconciliation_listing(docs.drop_last()) + reconciliation_doc_rows(docs.last())
    }
}

/// The flat row of a reconciliation for one of its adjustments, or the document's
/// placeholder row when it has no adjustment: placeholders show an em dash for
/// product and storage, the document id as item id, a surplus of zero and no
/// reason.
pub fn reconciliation_flat_row(doc: &LoadedReconciliation, line: Option<&AdjustmentLine>) -> (res: ReconciliationFlatRow)
    ensures
        res@ == reconciliation_row_of(
            *doc,
            match line {
                Some(l) => Some(*l),
                None => None,
            },
        ),
{
    let contractor_id_name = name_or_dash(&doc.contractor_name);
    let warehouse_id_name = name_or_dash(&doc.warehouse_name);
    match line {
        Some(item) => ReconciliationFlatRow {
            id: doc.id,
            document_id: doc.id,
            document_number: doc.document_number.clone(),
            date: doc.date.clone(),
            status: doc.status,
            contractor_id_name,
            warehouse_id_name,
            item_id: item.id,
            product_id_name: name_or_empty(&item.product_name),
            storage_id_name: name_or_empty(&item.storage_name),
            adjustment_type: item.adjustment_type,
            amount: item.amount,
            reason: item.reason.clone(),
        },
        None => ReconciliationFlatRow {
            id: doc.id,
            document_id: doc.id,
            document_number: doc.document_number.clone(),
            date: doc.date.clone(),
            status: doc.status,
            contractor_id_name,
            warehouse_id_name,
            item_id: doc.id,
            product_id_name: dash(),
            storage_id_name: dash(),
            adjustment_type: AdjustmentType::Surplus,
            amount: Quantity { mantissa: 0, scale: 0 },
            reason: None,
        },
    }
}

/// The flat listing of the given reconciliations, in their order.
pub fn reconciliation_flat_rows(docs: &Vec<LoadedReconciliation>) -> (res: Vec<ReconciliationFlatRow>)
    ensures
        reconciliation_row_views(res@) == reconciliation_listing(docs@),
{
    let mut rows: Vec<ReconciliationFlatRow> = Vec::new();
    let mut i: usize = 0;
    while i < docs.len()
        invariant
            i <= docs.len(),
            reconciliation_row_views(rows@) == reconciliation_listing(docs@.take(i as int)),
        decreases docs.len() - i,
    {
        let doc = &docs[i];
        assert(docs@.take(i + 1).drop_last() =~= docs@.take(i as int));
        let ghost before = reconciliation_row_views(rows@);
        if doc.lines.len() == 0 {
            let row = reconciliation_flat_row(doc, None);
            rows.push(row);
            assert(reconciliation_row_views(rows@) =~= before + reconciliation_doc_rows(*doc));
        } else {
            let mut j: usize = 0;
            while j < doc.lines.len()
                invariant
                    j <= doc.lines.len(),
                    doc == docs@[i as int],
                    reconciliation_row_views(rows@) == before + reconciliation_line_rows(*doc, doc.lines@.take(j as int)),
                decreases doc.lines.len() - j,
            {
                let ghost prev = rows@;
                let row = reconciliation_flat_row(doc, Some(&doc.lines[j]));
                rows.push(row);
                assert(reconciliation_line_rows(*doc, doc.lines@.take(j + 1)) =~= reconciliation_line_rows(
                    *doc,
                    doc.lines@.take(j as int),
                ).push(row@));
                assert(reconciliation_row_views(rows@) =~= reconciliation_row_views(prev).push(row@));
                j = j + 1;
            }
            assert(doc.lines@.take(doc.lines.len() as int) =~= doc.lines@);
        }
        i = i + 1;
    }
    assert(docs@.take(docs.len() as int) =~= docs@);
    rows
}

// ---------------------------------------------------------------------------
// Physical storage transfers
// ---------------------------------------------------------------------------

/// A physical transfer line as loaded with the names of its product and source
/// storage.
#[derive(Debug, Clone)]
pub struct PhysicalTransferLine {
    pub id: u128,
    pub product_name: Option<String>,
    pub from_storage_name: Option<String>,
    pub to_storage_id: u128,
    pub amount: Quantity,
}

/// A physical storage transfer as loaded with its contractor's name and its lines.
#[derive(Debug, Clone)]
pub struct LoadedPhysicalTransfer {
    pub id: u128,
    pub document_number: String,
    pub date: String,
    pub status: DocumentStatus,
    pub contractor_name: Option<String>,
    pub lines: Vec<PhysicalTransferLine>,
}

/// One row of the flat physical transfer listing.
#[derive(Debug, Clone)]
pub struct PhysicalTransferFlatRow {
    pub id: u128,
    pub document_id: u128,
    pub document_number: String,
    pub date: String,
    pub status: DocumentStatus,
    pub contractor_id_name: String,
    pub item_id: u128,
    pub product_id_name: String,
    pub from_storage_id_name: String,
    pub to_storage_id_name: String,
    pub amount: Quantity,
}

/// A flat physical transfer row with its texts as character sequences.
pub struct PhysicalTransferFlatRowView {
    pub id: u128,
    pub document_id: u128,
    pub document_number: Seq<char>,
    pub date: Seq<char>,
    pub status: DocumentStatus,
    pub contractor_id_name: Seq<char>,
    pub item_id: u128,
    pub product_id_name: Seq<char>,
    pub from_storage_id_name: Seq<char>,
    pub to_storage_id_name: Seq<char>,
    pub amount: Quantity,
}

impl View for PhysicalTransferFlatRow {
    type V = PhysicalTransferFlatRowView;

    open spec fn view(&self) -> PhysicalTransferFlatRowView {
        PhysicalTransferFlatRowView {
            id: self.id,
            document_id: self.document_id,
            document_number: self.document_number@,
            date: self.date@,
            status: self.status,
            contractor_id_name: self.contractor_id_name@,
            item_id: self.item_id,
            product_id_name: self.product_id_name@,
            from_storage_id_name: self.from_storage_id_name@,
            to_storage_id_name: self.to_storage_id_name@,
            amount: self.amount,
        }
    }
}

/// The views of a sequence of flat physical transfer rows.
pub open spec fn physical_transfer_row_views(rows: Seq<PhysicalTransferFlatRow>) -> Seq<PhysicalTransferFlatRowView> {
    rows.map_values(|r: PhysicalTransferFlatRow| r@)
}

/// The row of a physical transfer for one of its lines, or its placeholder row.
pub open spec fn physical_transfer_row_of(
    doc: LoadedPhysicalTransfer,
    line: Option<PhysicalTransferLine>,
    storage_names: Map<u128, String>,
) -> PhysicalTransferFlatRowView {
    PhysicalTransferFlatRowView {
        id: doc.id,
        document_id: doc.id,
        document_number: doc.document_number@,
        date: doc.date@,
        status: doc.status,
        contractor_id_name: name_or(doc.contractor_name, dash_text()),
        item_id: match line {
            Some(l) => l.id,
            None => doc.id,
        },
        product_id_name: match line {
            Some(l) => name_or(l.product_name, Seq::empty()),
            None => dash_text(),
        },
        from_storage_id_name: match line {
            Some(l) => name_or(l.from_storage_name, Seq::empty()),
            None => dash_text(),
        },
        to_storage_id_name: match line {
            Some(l) => mapped_name_or(storage_names, l.to_storage_id, Seq::empty()),
            None => dash_text(),
        },
        amount: match line {
            Some(l) => l.amount,
            None => Quantity { mantissa: 0, scale: 0 },
        },
    }
}

/// The rows of the given lines of a physical transfer.
pub open spec fn physical_transfer_line_rows(
    doc: LoadedPhysicalTransfer,
    lines: Seq<PhysicalTransferLine>,
    storage_names: Map<u128, String>,
) -> Seq<PhysicalTransferFlatRowView> {
    lines.map_values(|l: PhysicalTransferLine| physical_transfer_row_of(doc, Some(l), storage_names))
}

/// The rows of one physical transfer.
pub open spec fn physical_transfer_doc_rows(doc: LoadedPhysicalTransfer, storage_names: Map<u128, String>) -> Seq<PhysicalTransferFlatRowView> {
    if doc.lines@.len() == 0 {
        seq![physical_transfer_row_of(doc, None, storage_names)]
    } else {
        physical_transfer_line_rows(doc, doc.lines@, storage_names)
    }
}

/// The flat listing of physical transfers, document by document.
pub open spec fn physical_transfer_listing(docs: Seq<LoadedPhysicalTransfer>, storage_names: Map<u128, String>) -> Seq<
    PhysicalTransferFlatRowView,
>
    decreases docs.len(),
{
    if docs.len() == 0 {
        Seq::empty()
    } else {
        physical_transfer_listing(docs.drop_last(), storage_names) + physical_transfer_doc_rows(docs.last(), storage_names)
    }
}

/// The flat row of a physical transfer for one of its lines, or the document's
/// placeholder row when it has none: placeholders show an em dash for product
/// and both storages, the document id as item id and a zero amount. A line's
/// destination storage is named by `storage_names`, or left empty.
pub fn physical_transfer_flat_row(
    doc: &LoadedPhysicalTransfer,
    line: Option<&PhysicalTransferLine>,
    storage_names: &HashMap<u128, String>,
) -> (res: PhysicalTransferFlatRow)
    ensures
        res@ == physical_transfer_row_of(
            *doc,
            match line {
                Some(l) => Some(*l),
                None => None,
            },
            storage_names@,
        ),
{
    let contractor_id_name = name_or_dash(&doc.contractor_name);
    match line {
        Some(item) => PhysicalTransferFlatRow {
            id: doc.id,
            document_id: doc.id,
            document_number: doc.document_number.clone(),
            date: doc.date.clone(),
            status: doc.status,
            contractor_id_name,
            item_id: item.id,
            product_id_name: name_or_empty(&item.product_name),
            from_storage_id_name: name_or_empty(&item.from_storage_name),
            to_storage_id_name: mapped_name_or_empty(storage_names, item.to_storage_id),
            amount: item.amount,
        },
        None => PhysicalTransferFlatRow {
            id: doc.id,
            document_id: doc.id,
            document_number: doc.document_number.clone(),
            date: doc.date.clone(),
            status: doc.status,
            contractor_id_name,
            item_id: doc.id,
            product_id_name: dash(),
            from_storage_id_name: dash(),
            to_storage_id_name: dash(),
            amount: Quantity { mantissa: 0, scale: 0 },
        },
    }
}

/// The flat listing of the given physical transfers, in their order.
pub fn physical_transfer_flat_rows(docs: &Vec<LoadedPhysicalTransfer>, storage_names: &HashMap<u128, String>) -> (res: Vec<
    PhysicalTransferFlatRow,
>)
    ensures
        physical_transfer_row_views(res@) == physical_transfer_listing(docs@, storage_names@),
{
    let mut rows: Vec<PhysicalTransferFlatRow> = Vec::new();
    let mut i: usize = 0;
    while i < docs.len()
        invariant
            i <= docs.len(),
            physical_transfer_row_views(rows@) == physical_transfer_listing(docs@.take(i as int), storage_names@),
        decreases docs.len() - i,
    {
        let doc = &docs[i];
        assert(docs@.take(i + 1).drop_last() =~= docs@.take(i as int));
        let ghost before = physical_transfer_row_views(rows@);
        if doc.lines.len() == 0 {
            let row = physical_transfer_flat_row(doc, None, storage_names);
            rows.push(row);
            assert(physical_transfer_row_views(rows@) =~= before + physical_transfer_doc_rows(*doc, storage_names@));
        } else {
            let mut j: usize = 0;
            while j < doc.lines.len()
                invariant
                    j <= doc.lines.len(),
                    doc == docs@[i as int],
                    physical_transfer_row_views(rows@) == before + physical_transfer_line_rows(
                        *doc,
                        doc.lines@.take(j as int),
                        storage_names@,
                    ),
                decreases doc.lines.len() - j,
            {
                let ghost prev = rows@;
                let row = physical_transfer_flat_row(doc, Some(&doc.lines[j]), storage_names);
                rows.push(row);
                assert(physical_transfer_line_rows(*doc, doc.lines@.take(j + 1), storage_names@) =~= physical_transfer_line_rows(
                    *doc,
                    doc.lines@.take(j as int),
                    storage_names@,
                ).push(row@));
                assert(physical_transfer_row_views(rows@) =~= physical_transfer_row_views(prev).push(row@));
                j = j + 1;
            }
            assert(doc.lines@.take(doc.lines.len() as int) =~= doc.lines@);
        }
        i = i + 1;
    }
    assert(docs@.take(docs.len() as int) =~= docs@);
    rows
}

// ---------------------------------------------------------------------------
// Ownership transfers
// ---------------------------------------------------------------------------

/// An ownership transfer line as loaded with the names of its product and storage.
#[derive(Debug, Clone)]
pub struct OwnershipTransferLine {
    pub id: u128,
    pub product_name: Option<String>,
    pub storage_name: Option<String>,
    pub from_contractor_id: u128,
    pub to_contractor_id: u128,
    pub amount: Quantity,
}

/// An ownership transfer as loaded with its lines.
#[derive(Debug, Clone)]
pub struct LoadedOwnershipTransfer {
    pub id: u128,
    pub date: String,
    pub status: DocumentStatus,
    pub lines: Vec<OwnershipTransferLine>,
}

/// One row of the flat ownership transfer listing.
#[derive(Debug, Clone)]
pub struct OwnershipTransferFlatRow {
    pub id: u128,
    pub document_id: u128,
    pub date: String,
    pub status: DocumentStatus,
    pub item_id: u128,
    pub product_id_name: String,
    pub storage_id_name: String,
    pub from_contractor_id_name: String,
    pub to_contractor_id_name: String,
    pub amount: Quantity,
}

/// A flat ownership transfer row with its texts as character sequences.
pub struct OwnershipTransferFlatRowView {
    pub id: u128,
    pub document_id: u128,
    pub date: Seq<char>,
    pub status: DocumentStatus,
    pub item_id: u128,
    pub product_id_name: Seq<char>,
    pub storage_id_name: Seq<char>,
    pub from_contractor_id_name: Seq<char>,
    pub to_contractor_id_name: Seq<char>,
    pub amount: Quantity,
}

impl View for OwnershipTransferFlatRow {
    type V = OwnershipTransferFlatRowView;

    open spec fn view(&self) -> OwnershipTransferFlatRowView {
        OwnershipTransferFlatRowView {
            id: self.id,
            document_id: self.document_id,
            date: self.date@,
            status: self.status,
            item_id: self.item_id,
            product_id_name: self.product_id_name@,
            storage_id_name: self.storage_id_name@,
            from_contractor_id_name: self.from_contractor_id_name@,
            to_contractor_id_name: self.to_contractor_id_name@,
            amount: self.amount,
        }
    }
}

/// The views of a sequence of flat ownership transfer rows.
pub open spec fn ownership_transfer_row_views(rows: Seq<OwnershipTransferFlatRow>) -> Seq<OwnershipTransferFlatRowView> {
    rows.map_values(|r: OwnershipTransferFlatRow| r@)
}

/// The row of an ownership transfer for one of its lines, or its placeholder row.
pub open spec fn ownership_transfer_row_of(
    doc: LoadedOwnershipTransfer,
    line: Option<OwnershipTransferLine>,
    contractor_names: Map<u128, String>,
) -> OwnershipTransferFlatRowView {
    OwnershipTransferFlatRowView {
        id: doc.id,
        document_id: doc.id,
        date: doc.date@,
        status: doc.status,
        item_id: match line {
            Some(l) => l.id,
            None => doc.id,
        },
        product_id_name: match line {
            Some(l) => name_or(l.product_name, Seq::empty()),
            None => dash_text(),
        },
        storage_id_name: match line {
            Some(l) => name_or(l.storage_name, Seq::empty()),
            None => dash_text(),
        },
        from_contractor_id_name: match line {
            Some(l) => mapped_name_or(contractor_names, l.from_contractor_id, dash_text()),
            None => dash_text(),
        },
        to_contractor_id_name: match line {
            Some(l) => mapped_name_or(contractor_names, l.to_contractor_id, dash_text()),
            None => dash_text(),
        },
        amount: match line {
            Some(l) => l.amount,
            None => Quantity { mantissa: 0, scale: 0 },
        },
    }
}

/// The rows of the given lines of an ownership transfer.
pub open spec fn ownership_transfer_line_rows(
    doc: LoadedOwnershipTransfer,
    lines: Seq<OwnershipTransferLine>,
    contractor_names: Map<u128, String>,
) -> Seq<OwnershipTransferFlatRowView> {
    lines.map_values(|l: OwnershipTransferLine| ownership_transfer_row_of(doc, Some(l), contractor_names))
}

/// The rows of one ownership transfer.
pub open spec fn ownership_transfer_doc_rows(doc: LoadedOwnershipTransfer, contractor_names: Map<u128, String>) -> Seq<OwnershipTransferFlatRowView> {
    if doc.lines@.len() == 0 {
        seq![ownership_transfer_row_of(doc, None, contractor_names)]
    } else {
        ownership_transfer_line_rows(doc, doc.lines@, contractor_names)
    }
}

/// The flat listing of ownership transfers, document by document.
pub open spec fn ownership_transfer_listing(docs: Seq<LoadedOwnershipTransfer>, contractor_names: Map<u128, String>) -> Seq<
    OwnershipTransferFlatRowView,
>
    decreases docs.len(),
{
    if docs.len() == 0 {
        Seq::empty()
    } else {
        ownership_transfer_listing(docs.drop_last(), contractor_names) + ownership_transfer_doc_rows(docs.last(), contractor_names)
    }
}

/// The flat row of an ownership transfer for one of its lines, or the document's
/// placeholder row when it has none: placeholders show an em dash for product,
/// storage and both contractors, the document id as item id and a zero amount.
/// A line's contractors are named by `contractor_names`, or shown as an em dash.
pub fn ownership_transfer_flat_row(
    doc: &LoadedOwnershipTransfer,
    line: Option<&OwnershipTransferLine>,
    contractor_names: &HashMap<u128, String>,
) -> (res: OwnershipTransferFlatRow)
    ensures
        res@ == ownership_transfer_row_of(
            *doc,
            match line {
                Some(l) => Some(*l),
                None => None,
            },
            contractor_names@,
        ),
{
    match line {
        Some(item) => OwnershipTransferFlatRow {
            id: doc.id,
            document_id: doc.id,
            date: doc.date.clone(),
            status: doc.status,
            item_id: item.id,
            product_id_name: name_or_empty(&item.product_name),
            storage_id_name: name_or_empty(&item.storage_name),
            from_contractor_id_name: mapped_name_or_dash(contractor_names, item.from_contractor_id),
            to_contractor_id_name: mapped_name_or_dash(contractor_names, item.to_contractor_id),
            amount: item.amount,
        },
        None => OwnershipTransferFlatRow {
            id: doc.id,
            document_id: doc.id,
            date: doc.date.clone(),
            status: doc.status,
            item_id: doc.id,
            product_id_name: dash(),
            storage_id_name: dash(),
            from_contractor_id_name: dash(),
            to_contractor_id_name: dash(),
            amount: Quantity { mantissa: 0, scale: 0 },
        },
    }
}

/// The flat listing of the given ownership transfers, in their order.
pub fn ownership_transfer_flat_rows(docs: &Vec<LoadedOwnershipTransfer>, contractor_names: &HashMap<u128, String>) -> (res: Vec<
    OwnershipTransferFlatRow,
>)
    ensures
        ownership_transfer_row_views(res@) == ownership_transfer_listing(docs@, contractor_names@),
{
    let mut rows: Vec<OwnershipTransferFlatRow> = Vec::new();
    let mut i: usize = 0;
    while i < docs.len()
        invariant
            i <= docs.len(),
            ownership_transfer_row_views(rows@) == ownership_transfer_listing(docs@.take(i as int), contractor_names@),
        decreases docs.len() - i,
    {
        let doc = &docs[i];
        assert(docs@.take(i + 1).drop_last() =~= docs@.take(i as int));
        let ghost before = ownership_transfer_row_views(rows@);
        if doc.lines.len() == 0 {
            let row = ownership_transfer_flat_row(doc, None, contractor_names);
            rows.push(row);
            assert(ownership_transfer_row_views(rows@) =~= before + ownership_transfer_doc_rows(*doc, contractor_names@));
        } else {
            let mut j: usize = 0;
            while j < doc.lines.len()
                invariant
                    j <= doc.lines.len(),
                    doc == docs@[i as int],
                    ownership_transfer_row_views(rows@) == before + ownership_transfer_line_rows(
                        *doc,
                        doc.lines@.take(j as int),
                        contractor_names@,
                    ),
                decreases doc.lines.len() - j,
            {
                let ghost prev = rows@;
                let row = ownership_transfer_flat_row(doc, Some(&doc.lines[j]), contractor_names);
                rows.push(row);
                assert(ownership_transfer_line_rows(*doc, doc.lines@.take(j + 1), contractor_names@) =~= ownership_transfer_line_rows(
                    *doc,
                    doc.lines@.take(j as int),
                    contractor_names@,
                ).push(row@));
                assert(ownership_transfer_row_views(rows@) =~= ownership_transfer_row_views(prev).push(row@));
                j = j + 1;
            }
            assert(doc.lines@.take(doc.lines.len() as int) =~= doc.lines@);
        }
        i = i + 1;
    }
    assert(docs@.take(docs.len() as int) =~= docs@);
    rows
}

// ---------------------------------------------------------------------------
// Blending documents
// ---------------------------------------------------------------------------

/// A consumed component as loaded with the names of its source product and storage.
#[derive(Debug, Clone)]
pub struct BlendingComponentLine {
    pub id: u128,
    pub product_name: Option<String>,
    pub storage_name: Option<String>,
    pub amount_used: Quantity,
}

/// A produced result as loaded with the name of its storage.
#[derive(Debug, Clone)]
pub struct BlendingResultLine {
    pub id: u128,
    pub storage_name: Option<String>,
    pub produced_amount: Quantity,
}

/// A blending document as loaded with the names of its contractor and target
/// product, its components and its results.
#[derive(Debug, Clone)]
pub struct LoadedBlending {
    pub id: u128,
    pub document_number: String,
    pub date: String,
    pub status: DocumentStatus,
    pub contractor_name: Option<String>,
    pub target_product_name: Option<String>,
    pub components: Vec<BlendingComponentLine>,
    pub results: Vec<BlendingResultLine>,
}

/// One row of the flat blending listing.
#[derive(Debug, Clone)]
pub struct BlendingFlatRow {
    pub id: u128,
    pub document_id: u128,
    pub document_number: String,
    pub date: String,
    pub status: DocumentStatus,
    pub contractor_id_name: String,
    pub target_product_id_name: String,
    pub item_id: u128,
    pub item_type: String,
    pub product_id_name: String,
    pub storage_id_name: String,
    pub amount: Quantity,
}

/// A flat blending row with its texts as character sequences.
pub struct BlendingFlatRowView {
    pub id: u128,
    pub document_id: u128,
    pub document_number: Seq<char>,
    pub date: Seq<char>,
    pub status: DocumentStatus,
    pub contractor_id_name: Seq<char>,
    pub target_product_id_name: Seq<char>,
    pub item_id: u128,
    pub item_type: Seq<char>,
    pub product_id_name: Seq<char>,
    pub storage_id_name: Seq<char>,
    pub amount: Quantity,
}

impl View for BlendingFlatRow {
    type V = BlendingFlatRowView;

    open spec fn view(&self) -> BlendingFlatRowView {
        BlendingFlatRowView {
            id: self.id,
            document_id: self.document_id,
            document_number: self.document_number@,
            date: self.date@,
            status: self.status,
            contractor_id_name: self.contractor_id_name@,
            target_product_id_name: self.target_product_id_name@,
            item_id: self.item_id,
            item_type: self.item_type@,
            product_id_name: self.product_id_name@,
            storage_id_name: self.storage_id_name@,
            amount: self.amount,
        }
    }
}

/// The views of a sequence of flat blending rows.
pub open spec fn blending_row_views(rows: Seq<BlendingFlatRow>) -> Seq<BlendingFlatRowView> {
    rows.map_values(|r: BlendingFlatRow| r@)
}

/// A blending row: the document's fields with the given item fields.
pub open spec fn blending_row_of(
    doc: LoadedBlending,
    item_id: u128,
    item_type: Seq<char>,
    product: Seq<char>,
    storage: Seq<char>,
    amount: Quantity,
) -> BlendingFlatRowView {
    BlendingFlatRowView {
        id: doc.id,
        document_id: doc.id,
        document_number: doc.document_number@,
        date: doc.date@,
        status: doc.status,
        contractor_id_name: name_or(doc.contractor_name, dash_text()),
        target_product_id_name: name_or(doc.target_product_name, dash_text()),
        item_id,
        item_type,
        product_id_name: product,
        storage_id_name: storage,
        amount,
    }
}

/// The row of a consumed component.
pub open spec fn component_row(doc: LoadedBlending, c: BlendingComponentLine) -> BlendingFlatRowView {
    blending_row_of(
        doc,
        c.id,
        "component"@,
        name_or(c.product_name, Seq::empty()),
        name_or(c.storage_name, Seq::empty()),
        c.amount_used,
    )
}

/// The row of a produced result; its product is the document's target product.
pub open spec fn result_row(doc: LoadedBlending, r: BlendingResultLine) -> BlendingFlatRowView {
    blending_row_of(
        doc,
        r.id,
        "result"@,
        name_or(doc.target_product_name, dash_text()),
        name_or(r.storage_name, Seq::empty()),
        r.produced_amount,
    )
}

/// The rows of the given components.
pub open spec fn component_rows(doc: LoadedBlending, cs: Seq<BlendingComponentLine>) -> Seq<BlendingFlatRowView> {
    cs.map_values(|c: BlendingComponentLine| component_row(doc, c))
}

/// The rows of the given results.
pub open spec fn result_rows(doc: LoadedBlending, rs: Seq<BlendingResultLine>) -> Seq<BlendingFlatRowView> {
    rs.map_values(|r: BlendingResultLine| result_row(doc, r))
}

/// The rows of one blending document: a placeholder when it has neither
/// components nor results, then its components, then its results.
pub open spec fn blending_doc_rows(doc: LoadedBlending) -> Seq<BlendingFlatRowView> {
    let head = if doc.components@.len() == 0 && doc.results@.len() == 0 {
        seq![blending_row_of(doc, doc.id, dash_text(), dash_text(), dash_text(), Quantity { mantissa: 0, scale: 0 })]
    } else {
        Seq::empty()
    };
    head + component_rows(doc, doc.components@) + result_rows(doc, doc.results@)
}

/// The flat listing of blending documents, document by document.
pub open spec fn blending_listing(docs: Seq<LoadedBlending>) -> Seq<BlendingFlatRowView>
    decreases docs.len(),
{
    if docs.len() == 0 {
        Seq::empty()
    } else {
        blending_listing(docs.drop_last()) + blending_doc_rows(docs.last())
    }
}

/// A blending row with the document's fields and the given item fields.
fn blending_row(
    doc: &LoadedBlending,
    item_id: u128,
    item_type: String,
    product: String,
    storage: String,
    amount: Quantity,
) -> (res: BlendingFlatRow)
    ensures
        res@ == blending_row_of(*doc, item_id, item_type@, product@, storage@, amount),
{
    BlendingFlatRow {
        id: doc.id,
        document_id: doc.id,
        document_number: doc.document_number.clone(),
        date: doc.date.clone(),
        status: doc.status,
        contractor_id_name: name_or_dash(&doc.contractor_name),
        target_product_id_name: name_or_dash(&doc.target_product_name),
        item_id,
        item_type,
        product_id_name: product,
        storage_id_name: storage,
        amount,
    }
}

/// The flat listing of the given blending documents, in their order: for each
/// document a placeholder row (em dashes, the document id, a zero amount) when
/// it has neither components nor results, then one "component" row per
/// component and one "result" row per result.
pub fn blending_flat_rows(docs: &Vec<LoadedBlending>) -> (res: Vec<BlendingFlatRow>)
    ensures
        blending_row_views(res@) == blending_listing(docs@),
{
    let mut rows: Vec<BlendingFlatRow> = Vec::new();
    let mut i: usize = 0;
    while i < docs.len()
        invariant
            i <= docs.len(),
            blending_row_views(rows@) == blending_listing(docs@.take(i as int)),
        decreases docs.len() - i,
    {
        let doc = &docs[i];
        assert(docs@.take(i + 1).drop_last() =~= docs@.take(i as int));
        let ghost before = blending_row_views(rows@);
        let ghost head = if doc.components@.len() == 0 && doc.results@.len() == 0 {
            seq![blending_row_of(*doc, doc.id, dash_text(), dash_text(), dash_text(), Quantity { mantissa: 0, scale: 0 })]
        } else {
            Seq::<BlendingFlatRowView>::empty()
        };
        if doc.components.len() == 0 && doc.results.len() == 0 {
            let row = blending_row(doc, doc.id, dash(), dash(), dash(), Quantity { mantissa: 0, scale: 0 });
            rows.push(row);
            assert(blending_row_views(rows@) =~= before + head);
        } else {
            assert(before + head =~= before);
        }
        let mut j: usize = 0;
        while j < doc.components.len()
            invariant
                j <= doc.components.len(),
                doc == docs@[i as int],
                blending_row_views(rows@) == before + head + component_rows(*doc, doc.components@.take(j as int)),
            decreases doc.components.len() - j,
        {
            let ghost prev = rows@;
            let c = &doc.components[j];
            let row = blending_row(
                doc,
                c.id,
                String::from_str("component"),
                name_or_empty(&c.product_name),
                name_or_empty(&c.storage_name),
                c.amount_used,
            );
            rows.push(row);
            assert(component_rows(*doc, doc.components@.take(j + 1)) =~= component_rows(
                *doc,
                doc.components@.take(j as int),
            ).push(row@));
            assert(blending_row_views(rows@) =~= blending_row_views(prev).push(row@));
            j = j + 1;
        }
        assert(doc.components@.take(doc.components.len() as int) =~= doc.components@);
        let ghost mid = blending_row_views(rows@);
        let mut k: usize = 0;
        while k < doc.results.len()
            invariant
                k <= doc.results.len(),
                doc == docs@[i as int],
                blending_row_views(rows@) == mid + result_rows(*doc, doc.results@.take(k as int)),
            decreases doc.results.len() - k,
        {
            let ghost prev = rows@;
            let r = &doc.results[k];
            let row = blending_row(
                doc,
                r.id,
                String::from_str("result"),
                name_or_dash(&doc.target_product_name),
                name_or_empty(&r.storage_name),
                r.produced_amount,
            );
            rows.push(row);
            assert(result_rows(*doc, doc.results@.take(k + 1)) =~= result_rows(
                *doc,
                doc.results@.take(k as int),
            ).push(row@));
            assert(blending_row_views(rows@) =~= blending_row_views(prev).push(row@));
            k = k + 1;
        }
        assert(doc.results@.take(doc.results.len() as int) =~= doc.results@);
        assert(blending_row_views(rows@) =~= before + blending_doc_rows(*doc));
        i = i + 1;
    }
    assert(docs@.take(docs.len() as int) =~= docs@);
    rows
}

} // verus!
