//! What each document listing selects: the conditions that a query
//! specification puts on the stored documents. A deleted document is never
//! listed; each given filter must hold.
use vstd::prelude::*;
use vstd::string::StrSliceExecFns;

use crate::base_ids::chars_of;
use crate::enums::{pipeline_status_of, DispatchMethod, DocumentStatus, NullableFilter, PipelineStatus};
use crate::models::{
    AcceptanceDocument, BlendingDocument, DispatchDocument, InventoryReconciliation, OwnershipTransfer,
    PhysicalStorageTransfer, RailWaybill, TruckWaybill,
};
use crate::query::{
    AcceptanceDocumentQuerySpec, AcceptanceFlatQuerySpec, BlendingDocumentQuerySpec, BlendingFlatQuerySpec,
    DispatchDocumentQuerySpec, DispatchFlatQuerySpec, OwnershipTransferFlatQuerySpec, OwnershipTransferQuerySpec,
    PhysicalTransferFlatQuerySpec, PhysicalTransferQuerySpec, RailReceiptPipelineQuerySpec, RailWaybillQuerySpec,
    ReconciliationFlatQuerySpec, ReconciliationQuerySpec, TruckDispatchPipelineQuerySpec,
    TruckReceiptPipelineQuerySpec, TruckWaybillQuerySpec,
};

verus! {

// ---------------------------------------------------------------------------
// Conditions
// ---------------------------------------------------------------------------

/// Whether `needle` occurs in `hay`.
pub open spec fn contains_text(hay: Seq<char>, needle: Seq<char>) -> bool {
    exists|i: int| 0 <= i && i + needle.len() <= hay.len() && #[trigger] hay.subrange(i, i + needle.len()) == needle
}

/// Whether `needle` occurs in `hay`.
pub fn text_contains(hay: &str, needle: &str) -> (res: bool)
    ensures
        res == contains_text(hay@, needle@),
{
    let h = chars_of(hay);
    let n = chars_of(needle);
    if n.len() == 0 {
        assert(hay@.subrange(0, 0 + needle@.len() as int) =~= needle@);
        return true;
    }
    if n.len() > h.len() {
        return false;
    }
    let last = h.len() - n.len();
    let mut i: usize = 0;
    while i <= last
        invariant
            h@ == hay@,
            n@ == needle@,
            last == h@.len() - n@.len(),
            last + n.len() == h.len(),
            1 <= n@.len() <= h@.len(),
            i <= last + 1,
            forall|j: int| 0 <= j < i ==> #[trigger] h@.subrange(j, j + n@.len()) != n@,
        decreases last + 1 - i,
    {
        let mut k: usize = 0;
        let mut same = true;
        while k < n.len()
            invariant
                h@ == hay@,
                n@ == needle@,
                i <= last,
                last == h@.len() - n@.len(),
                last + n.len() == h.len(),
                1 <= n@.len() <= h@.len(),
                k <= n@.len(),
                same ==> forall|m: int| 0 <= m < k ==> h@[i + m] == n@[m],
                !same ==> h@.subrange(i as int, i + n@.len()) != n@,
            decreases n.len() - k,
        {
            if same && h[i + k] != n[k] {
                same = false;
                assert(h@.subrange(i as int, i + n@.len())[k as int] != n@[k as int]);
            }
            k = k + 1;
        }
        if same {
            assert(h@.subrange(i as int, i + n@.len()) =~= n@);
            return true;
        }
        i = i + 1;
    }
    assert forall|j: int| 0 <= j && j + needle@.len() <= hay@.len() implies #[trigger] hay@.subrange(
        j,
        j + needle@.len(),
    ) != needle@ by {
        assert(h@.subrange(j, j + n@.len()) != n@);
    }
    false
}

/// A document number passes a number filter when it contains the filter's text.
pub open spec fn number_matches(filter: Option<String>, number: String) -> bool {
    match filter {
        Some(f) => contains_text(number@, f@),
        None => true,
    }
}

fn number_passes(filter: &Option<String>, number: &String) -> (res: bool)
    ensures
        res == number_matches(*filter, *number),
{
    match filter {
        Some(f) => text_contains(number.as_str(), f.as_str()),
        None => true,
    }
}

/// A value passes an optional equality filter.
pub open spec fn equal_or_any<T>(filter: Option<T>, value: T) -> bool {
    match filter {
        Some(f) => f == value,
        None => true,
    }
}

fn status_passes(filter: Option<DocumentStatus>, value: DocumentStatus) -> (res: bool)
    ensures
        res == equal_or_any(filter, value),
{
    match filter {
        Some(f) => f == value,
        None => true,
    }
}

fn id_passes(filter: Option<u128>, value: u128) -> (res: bool)
    ensures
        res == equal_or_any(filter, value),
{
    match filter {
        Some(f) => f == value,
        None => true,
    }
}

/// A nullable reference passes a null filter.
pub open spec fn nullable_matches(filter: Option<NullableFilter>, value: Option<u128>) -> bool {
    match filter {
        Some(NullableFilter::IsNull) => value is None,
        Some(NullableFilter::IsNotNull) => value is Some,
        None => true,
    }
}

fn nullable_passes(filter: Option<NullableFilter>, value: Option<u128>) -> (res: bool)
    ensures
        res == nullable_matches(filter, value),
{
    match filter {
        Some(NullableFilter::IsNull) => value.is_none(),
        Some(NullableFilter::IsNotNull) => value.is_some(),
        None => true,
    }
}

/// A document's status passes a pipeline status filter; no document is pending.
pub open spec fn pipeline_matches(filter: Option<PipelineStatus>, status: DocumentStatus) -> bool {
    equal_or_any(filter, pipeline_status_of(Some(status)))
}

// ---------------------------------------------------------------------------
// Listings
// ---------------------------------------------------------------------------

impl AcceptanceDocumentQuerySpec {
    /// The acceptance documents that the listing selects.
    pub open spec fn selects_spec(self, doc: AcceptanceDocument) -> bool {
        &&& doc.deleted_at is None
        &&& number_matches(self.document_number, doc.document_number)
        &&& equal_or_any(self.status, doc.status)
        &&& nullable_matches(self.truck_waybill_id, doc.truck_waybill_id)
        &&& nullable_matches(self.rail_waybill_id, doc.rail_waybill_id)
        &&& nullable_matches(self.transit_dispatch_id, doc.transit_dispatch_id)
    }

    /// Whether the listing selects an acceptance document: not deleted, its
    /// number containing the requested text, of the requested status, and with
    /// or without each waybill reference as requested.
    pub fn selects(&self, doc: &AcceptanceDocument) -> (res: bool)
        ensures
            res == self.selects_spec(*doc),
    {
        doc.deleted_at.is_none() && number_passes(&self.document_number, &doc.document_number) && status_passes(
            self.status,
            doc.status,
        ) && nullable_passes(self.truck_waybill_id, doc.truck_waybill_id) && nullable_passes(
            self.rail_waybill_id,
            doc.rail_waybill_id,
        ) && nullable_passes(self.transit_dispatch_id, doc.transit_dispatch_id)
    }
}

impl AcceptanceFlatQuerySpec {
    /// The acceptance documents that the flat listing selects.
    pub open spec fn selects_spec(self, doc: AcceptanceDocument) -> bool {
        doc.deleted_at is None && equal_or_any(self.status, doc.status)
    }

    /// Whether the flat listing selects an acceptance document: not deleted and
    /// of the requested status.
    pub fn selects(&self, doc: &AcceptanceDocument) -> (res: bool)
        ensures
            res == self.selects_spec(*doc),
    {
        doc.deleted_at.is_none() && status_passes(self.status, doc.status)
    }
}

impl DispatchDocumentQuerySpec {
    /// The dispatch documents that the listing selects.
    pub open spec fn selects_spec(self, doc: DispatchDocument) -> bool {
        &&& doc.deleted_at is None
        &&& number_matches(self.document_number, doc.document_number)
        &&& equal_or_any(self.status, doc.status)
        &&& equal_or_any(self.contractor_id, doc.contractor_id)
        &&& equal_or_any(self.dispatch_method, doc.dispatch_method)
        &&& equal_or_any(self.dispatch_purpose, doc.dispatch_purpose)
    }

    /// Whether the listing selects a dispatch document: not deleted, its number
    /// containing the requested text, and of the requested status, contractor,
    /// method and purpose.
    pub fn selects(&self, doc: &DispatchDocument) -> (res: bool)
        ensures
            res == self.selects_spec(*doc),
    {
        let method = match self.dispatch_method {
            Some(m) => m == doc.dispatch_method,
            None => true,
        };
        let purpose = match self.dispatch_purpose {
            Some(p) => p == doc.dispatch_purpose,
            None => true,
        };
        doc.deleted_at.is_none() && number_passes(&self.document_number, &doc.document_number) && status_passes(
            self.status,
            doc.status,
        ) && id_passes(self.contractor_id, doc.contractor_id) && method && purpose
    }
}

impl DispatchFlatQuerySpec {
    /// The dispatch documents that the flat listing selects.
    pub open spec fn selects_spec(self, doc: DispatchDocument) -> bool {
        &&& doc.deleted_at is None
        &&& equal_or_any(self.status, doc.status)
        &&& equal_or_any(self.dispatch_method, doc.dispatch_method)
        &&& equal_or_any(self.dispatch_purpose, doc.dispatch_purpose)
    }

    /// Whether the flat listing selects a dispatch document: not deleted and of
    /// the requested status, method and purpose.
    pub fn selects(&self, doc: &DispatchDocument) -> (res: bool)
        ensures
            res == self.selects_spec(*doc),
    {
        let method = match self.dispatch_method {
            Some(m) => m == doc.dispatch_method,
            None => true,
        };
        let purpose = match self.dispatch_purpose {
            Some(p) => p == doc.dispatch_purpose,
            None => true,
        };
        doc.deleted_at.is_none() && status_passes(self.status, doc.status) && method && purpose
    }
}

impl TruckDispatchPipelineQuerySpec {
    /// The dispatch documents that the truck dispatch pipeline selects.
    pub open spec fn selects_spec(self, doc: DispatchDocument) -> bool {
        &&& doc.deleted_at is None
        &&& doc.dispatch_method == DispatchMethod::Truck
        &&& equal_or_any(self.contractor_id, doc.contractor_id)
        &&& pipeline_matches(self.pipeline_status, doc.status)
    }

    /// Whether the truck dispatch pipeline selects a dispatch document: a truck
    /// dispatch, not deleted, of the requested contractor, whose status is the
    /// requested pipeline status (a pending filter selects none).
    pub fn selects(&self, doc: &DispatchDocument) -> (res: bool)
        ensures
            res == self.selects_spec(*doc),
    {
        let status = PipelineStatus::from_doc_status(Some(&doc.status));
        let status_ok = match self.pipeline_status {
            Some(p) => p == status,
            None => true,
        };
        doc.deleted_at.is_none() && doc.dispatch_method == DispatchMethod::Truck && id_passes(
            self.contractor_id,
            doc.contractor_id,
        ) && status_ok
    }
}

impl BlendingDocumentQuerySpec {
    /// The blending documents that the listing selects.
    pub open spec fn selects_spec(self, doc: BlendingDocument) -> bool {
        &&& doc.deleted_at is None
        &&& number_matches(self.document_number, doc.document_number)
        &&& equal_or_any(self.status, doc.status)
        &&& equal_or_any(self.contractor_id, doc.contractor_id)
    }

    /// Whether the listing selects a blending document: not deleted, its number
    /// containing the requested text, of the requested status and contractor.
    pub fn selects(&self, doc: &BlendingDocument) -> (res: bool)
        ensures
            res == self.selects_spec(*doc),
    {
        doc.deleted_at.is_none() && number_passes(&self.document_number, &doc.document_number) && status_passes(
            self.status,
            doc.status,
        ) && id_passes(self.contractor_id, doc.contractor_id)
    }
}

impl BlendingFlatQuerySpec {
    /// The blending documents that the flat listing selects.
    pub open spec fn selects_spec(self, doc: BlendingDocument) -> bool {
        doc.deleted_at is None && equal_or_any(self.status, doc.status)
    }

    /// Whether the flat listing selects a blending document: not deleted and of
    /// the requested status.
    pub fn selects(&self, doc: &BlendingDocument) -> (res: bool)
        ensures
            res == self.selects_spec(*doc),
    {
        doc.deleted_at.is_none() && status_passes(self.status, doc.status)
    }
}

impl ReconciliationQuerySpec {
    /// The reconciliations that the listing selects.
    pub open spec fn selects_spec(self, doc: InventoryReconciliation) -> bool {
        &&& doc.deleted_at is None
        &&& number_matches(self.document_number, doc.document_number)
        &&& equal_or_any(self.status, doc.status)
        &&& equal_or_any(self.warehouse_id, doc.warehouse_id)
    }

    /// Whether the listing selects a reconciliation: not deleted, its number
    /// containing the requested text, of the requested status and warehouse.
    pub fn selects(&self, doc: &InventoryReconciliation) -> (res: bool)
        ensures
            res == self.selects_spec(*doc),
    {
        doc.deleted_at.is_none() && number_passes(&self.document_number, &doc.document_number) && status_passes(
            self.status,
            doc.status,
        ) && id_passes(self.warehouse_id, doc.warehouse_id)
    }
}

impl ReconciliationFlatQuerySpec {
    /// The reconciliations that the flat listing selects.
    pub open spec fn selects_spec(self, doc: InventoryReconciliation) -> bool {
        doc.deleted_at is None && equal_or_any(self.status, doc.status)
    }

    /// Whether the flat listing selects a reconciliation: not deleted and of the
    /// requested status.
    pub fn selects(&self, doc: &InventoryReconciliation) -> (res: bool)
        ensures
            res == self.selects_spec(*doc),
    {
        doc.deleted_at.is_none() && status_passes(self.status, doc.status)
    }
}

impl TruckWaybillQuerySpec {
    /// The truck waybills that the listing selects.
    pub open spec fn selects_spec(self, doc: TruckWaybill) -> bool {
        &&& doc.deleted_at is None
        &&& number_matches(self.document_number, doc.document_number)
        &&& equal_or_any(self.sender_id, doc.sender_id)
    }

    /// Whether the listing selects a truck waybill: not deleted, its number
    /// containing the requested text, from the requested sender.
    pub fn selects(&self, doc: &TruckWaybill) -> (res: bool)
        ensures
            res == self.selects_spec(*doc),
    {
        doc.deleted_at.is_none() && number_passes(&self.document_number, &doc.document_number) && id_passes(
            self.sender_id,
            doc.sender_id,
        )
    }
}

impl TruckReceiptPipelineQuerySpec {
    /// The truck waybills that the receipt pipeline loads.
    pub open spec fn selects_spec(self, doc: TruckWaybill) -> bool {
        doc.deleted_at is None && equal_or_any(self.contractor_id, doc.sender_id)
    }

    /// Whether the truck receipt pipeline loads a truck waybill: not deleted and
    /// from the requested contractor. The pipeline status is filtered once the
    /// waybill's acceptance is known.
    pub fn selects(&self, doc: &TruckWaybill) -> (res: bool)
        ensures
            res == self.selects_spec(*doc),
    {
        doc.deleted_at.is_none() && id_passes(self.contractor_id, doc.sender_id)
    }
}

impl RailWaybillQuerySpec {
    /// The rail waybills that the listing selects.
    pub open spec fn selects_spec(self, doc: RailWaybill) -> bool {
        &&& doc.deleted_at is None
        &&& number_matches(self.document_number, doc.document_number)
        &&& equal_or_any(self.sender_id, doc.sender_id)
    }

    /// Whether the listing selects a rail waybill: not deleted, its number
    /// containing the requested text, from the requested sender.
    pub fn selects(&self, doc: &RailWaybill) -> (res: bool)
        ensures
            res == self.selects_spec(*doc),
    {
        doc.deleted_at.is_none() && number_passes(&self.document_number, &doc.document_number) && id_passes(
            self.sender_id,
            doc.sender_id,
        )
    }
}

impl RailReceiptPipelineQuerySpec {
    /// The rail waybills that the receipt pipeline loads.
    pub open spec fn selects_spec(self, doc: RailWaybill) -> bool {
        doc.deleted_at is None && equal_or_any(self.contractor_id, doc.sender_id)
    }

    /// Whether the rail receipt pipeline loads a rail waybill: not deleted and
    /// from the requested contractor. The pipeline status is filtered once the
    /// waybill's acceptance is known.
    pub fn selects(&self, doc: &RailWaybill) -> (res: bool)
        ensures
            res == self.selects_spec(*doc),
    {
        doc.deleted_at.is_none() && id_passes(self.contractor_id, doc.sender_id)
    }
}

impl PhysicalTransferQuerySpec {
    /// The physical transfers that the listing selects.
    pub open spec fn selects_spec(self, doc: PhysicalStorageTransfer) -> bool {
        &&& doc.deleted_at is None
        &&& number_matches(self.document_number, doc.document_number)
        &&& equal_or_any(self.status, doc.status)
    }

    /// Whether the listing selects a physical transfer: not deleted, its number
    /// containing the requested text, of the requested status.
    pub fn selects(&self, doc: &PhysicalStorageTransfer) -> (res: bool)
        ensures
            res == self.selects_spec(*doc),
    {
        doc.deleted_at.is_none() && number_passes(&self.document_number, &doc.document_number) && status_passes(
            self.status,
            doc.status,
        )
    }
}

impl PhysicalTransferFlatQuerySpec {
    /// The physical transfers that the flat listing selects.
    pub open spec fn selects_spec(self, doc: PhysicalStorageTransfer) -> bool {
        doc.deleted_at is None && equal_or_any(self.status, doc.status)
    }

    /// Whether the flat listing selects a physical transfer: not deleted and of
    /// the requested status.
    pub fn selects(&self, doc: &PhysicalStorageTransfer) -> (res: bool)
        ensures
            res == self.selects_spec(*doc),
    {
        doc.deleted_at.is_none() && status_passes(self.status, doc.status)
    }
}

impl OwnershipTransferQuerySpec {
    /// The ownership transfers that the listing selects.
    pub open spec fn selects_spec(self, doc: OwnershipTransfer) -> bool {
        doc.deleted_at is None && equal_or_any(self.status, doc.status)
    }

    /// Whether the listing selects an ownership transfer: not deleted and of the
    /// requested status.
    pub fn selects(&self, doc: &OwnershipTransfer) -> (res: bool)
        ensures
            res == self.selects_spec(*doc),
    {
        doc.deleted_at.is_none() && status_passes(self.status, doc.status)
    }
}

impl OwnershipTransferFlatQuerySpec {
    /// The ownership transfers that the flat listing selects.
    pub open spec fn selects_spec(self, doc: OwnershipTransfer) -> bool {
        doc.deleted_at is None && equal_or_any(self.status, doc.status)
    }

    /// Whether the flat listing selects an ownership transfer: not deleted and of
    /// the requested status.
    pub fn selects(&self, doc: &OwnershipTransfer) -> (res: bool)
        ensures
            res == self.selects_spec(*doc),
    {
        doc.deleted_at.is_none() && status_passes(self.status, doc.status)
    }
}

// ---------------------------------------------------------------------------
// Laws: what each listing selects, filter by filter
// ---------------------------------------------------------------------------

/// The acceptance listing selects exactly the documents that are not deleted,
/// whose number contains the requested text, of the requested status, and whose
/// truck waybill, rail waybill and transit dispatch links are null or set as
/// requested.
pub proof fn law_acceptance_listing_filters(q: AcceptanceDocumentQuerySpec, doc: AcceptanceDocument)
    ensures
        q.selects_spec(doc) <==> {
            &&& doc.deleted_at is None
            &&& (q.document_number matches Some(n) ==> contains_text(doc.document_number@, n@))
            &&& (q.status matches Some(s) ==> doc.status == s)
            &&& (q.truck_waybill_id == Some(NullableFilter::IsNull) ==> doc.truck_waybill_id is None)
            &&& (q.truck_waybill_id == Some(NullableFilter::IsNotNull) ==> doc.truck_waybill_id is Some)
            &&& (q.rail_waybill_id == Some(NullableFilter::IsNull) ==> doc.rail_waybill_id is None)
            &&& (q.rail_waybill_id == Some(NullableFilter::IsNotNull) ==> doc.rail_waybill_id is Some)
            &&& (q.transit_dispatch_id == Some(NullableFilter::IsNull) ==> doc.transit_dispatch_id is None)
            &&& (q.transit_dispatch_id == Some(NullableFilter::IsNotNull) ==> doc.transit_dispatch_id is Some)
        },
{
}

/// The flat acceptance listing selects exactly the documents that are not
/// deleted and of the requested status.
pub proof fn law_acceptance_flat_listing_filters(q: AcceptanceFlatQuerySpec, doc: AcceptanceDocument)
    ensures
        q.selects_spec(doc) <==> (doc.deleted_at is None && (q.status matches Some(s) ==> doc.status == s)),
{
}

/// The dispatch listing selects exactly the documents that are not deleted,
/// whose number contains the requested text, and of the requested status,
/// contractor, method and purpose.
pub proof fn law_dispatch_listing_filters(q: DispatchDocumentQuerySpec, doc: DispatchDocument)
    ensures
        q.selects_spec(doc) <==> {
            &&& doc.deleted_at is None
            &&& (q.document_number matches Some(n) ==> contains_text(doc.document_number@, n@))
            &&& (q.status matches Some(s) ==> doc.status == s)
            &&& (q.contractor_id matches Some(c) ==> doc.contractor_id == c)
            &&& (q.dispatch_method matches Some(m) ==> doc.dispatch_method == m)
            &&& (q.dispatch_purpose matches Some(p) ==> doc.dispatch_purpose == p)
        },
{
}

/// The flat dispatch listing selects exactly the documents that are not deleted
/// and of the requested status, method and purpose.
pub proof fn law_dispatch_flat_listing_filters(q: DispatchFlatQuerySpec, doc: DispatchDocument)
    ensures
        q.selects_spec(doc) <==> {
            &&& doc.deleted_at is None
            &&& (q.status matches Some(s) ==> doc.status == s)
            &&& (q.dispatch_method matches Some(m) ==> doc.dispatch_method == m)
            &&& (q.dispatch_purpose matches Some(p) ==> doc.dispatch_purpose == p)
        },
{
}

/// The truck dispatch pipeline selects exactly the truck dispatches that are not
/// deleted, of the requested contractor, and whose pipeline status (draft for a
/// draft, executed for an executed document) is the requested one; a pending
/// filter selects nothing.
pub proof fn law_truck_dispatch_pipeline_filters(q: TruckDispatchPipelineQuerySpec, doc: DispatchDocument)
    ensures
        q.selects_spec(doc) <==> {
            &&& doc.deleted_at is None
            &&& doc.dispatch_method == DispatchMethod::Truck
            &&& (q.contractor_id matches Some(c) ==> doc.contractor_id == c)
            &&& (q.pipeline_status == Some(PipelineStatus::Draft) ==> doc.status == DocumentStatus::Draft)
            &&& (q.pipeline_status == Some(PipelineStatus::Executed) ==> doc.status == DocumentStatus::Executed)
            &&& q.pipeline_status != Some(PipelineStatus::Pending)
        },
{
}

/// The blending listing selects exactly the documents that are not deleted,
/// whose number contains the requested text, and of the requested status and
/// contractor.
pub proof fn law_blending_listing_filters(q: BlendingDocumentQuerySpec, doc: BlendingDocument)
    ensures
        q.selects_spec(doc) <==> {
            &&& doc.deleted_at is None
            &&& (q.document_number matches Some(n) ==> contains_text(doc.document_number@, n@))
            &&& (q.status matches Some(s) ==> doc.status == s)
            &&& (q.contractor_id matches Some(c) ==> doc.contractor_id == c)
        },
{
}

/// The flat blending listing selects exactly the documents that are not deleted
/// and of the requested status.
pub proof fn law_blending_flat_listing_filters(q: BlendingFlatQuerySpec, doc: BlendingDocument)
    ensures
        q.selects_spec(doc) <==> (doc.deleted_at is None && (q.status matches Some(s) ==> doc.status == s)),
{
}

/// The reconciliation listing selects exactly the documents that are not
/// deleted, whose number contains the requested text, and of the requested
/// status and warehouse.
pub proof fn law_reconciliation_listing_filters(q: ReconciliationQuerySpec, doc: InventoryReconciliation)
    ensures
        q.selects_spec(doc) <==> {
            &&& doc.deleted_at is None
            &&& (q.document_number matches Some(n) ==> contains_text(doc.document_number@, n@))
            &&& (q.status matches Some(s) ==> doc.status == s)
            &&& (q.warehouse_id matches Some(w) ==> doc.warehouse_id == w)
        },
{
}

/// The flat reconciliation listing selects exactly the documents that are not
/// deleted and of the requested status.
pub proof fn law_reconciliation_flat_listing_filters(q: ReconciliationFlatQuerySpec, doc: InventoryReconciliation)
    ensures
        q.selects_spec(doc) <==> (doc.deleted_at is None && (q.status matches Some(s) ==> doc.status == s)),
{
}

/// The truck waybill listing selects exactly the waybills that are not deleted,
/// whose number contains the requested text, and of the requested sender.
pub proof fn law_truck_waybill_listing_filters(q: TruckWaybillQuerySpec, doc: TruckWaybill)
    ensures
        q.selects_spec(doc) <==> {
            &&& doc.deleted_at is None
            &&& (q.document_number matches Some(n) ==> contains_text(doc.document_number@, n@))
            &&& (q.sender_id matches Some(c) ==> doc.sender_id == c)
        },
{
}

/// The truck receipt pipeline selects exactly the waybills that are not deleted
/// and whose sender is the requested contractor.
pub proof fn law_truck_receipt_pipeline_filters(q: TruckReceiptPipelineQuerySpec, doc: TruckWaybill)
    ensures
        q.selects_spec(doc) <==> (doc.deleted_at is None && (q.contractor_id matches Some(c) ==> doc.sender_id == c)),
{
}

/// The rail waybill listing selects exactly the waybills that are not deleted,
/// whose number contains the requested text, and of the requested sender.
pub proof fn law_rail_waybill_listing_filters(q: RailWaybillQuerySpec, doc: RailWaybill)
    ensures
        q.selects_spec(doc) <==> {
            &&& doc.deleted_at is None
            &&& (q.document_number matches Some(n) ==> contains_text(doc.document_number@, n@))
            &&& (q.sender_id matches Some(c) ==> doc.sender_id == c)
        },
{
}

/// The rail receipt pipeline selects exactly the waybills that are not deleted
/// and whose sender is the requested contractor.
pub proof fn law_rail_receipt_pipeline_filters(q: RailReceiptPipelineQuerySpec, doc: RailWaybill)
    ensures
        q.selects_spec(doc) <==> (doc.deleted_at is None && (q.contractor_id matches Some(c) ==> doc.sender_id == c)),
{
}

/// The physical transfer listing selects exactly the transfers that are not
/// deleted, whose number contains the requested text, and of the requested
/// status.
pub proof fn law_physical_transfer_listing_filters(q: PhysicalTransferQuerySpec, doc: PhysicalStorageTransfer)
    ensures
        q.selects_spec(doc) <==> {
            &&& doc.deleted_at is None
            &&& (q.document_number matches Some(n) ==> contains_text(doc.document_number@, n@))
            &&& (q.status matches Some(s) ==> doc.status == s)
        },
{
}

/// The flat physical transfer listing selects exactly the transfers that are not
/// deleted and of the requested status.
pub proof fn law_physical_transfer_flat_listing_filters(q: PhysicalTransferFlatQuerySpec, doc: PhysicalStorageTransfer)
    ensures
        q.selects_spec(doc) <==> (doc.deleted_at is None && (q.status matches Some(s) ==> doc.status == s)),
{
}

/// The ownership transfer listing selects exactly the transfers that are not
/// deleted and of the requested status.
pub proof fn law_ownership_transfer_listing_filters(q: OwnershipTransferQuerySpec, doc: OwnershipTransfer)
    ensures
        q.selects_spec(doc) <==> (doc.deleted_at is None && (q.status matches Some(s) ==> doc.status == s)),
{
}

/// The flat ownership transfer listing selects exactly the transfers that are
/// not deleted and of the requested status.
pub proof fn law_ownership_transfer_flat_listing_filters(q: OwnershipTransferFlatQuerySpec, doc: OwnershipTransfer)
    ensures
        q.selects_spec(doc) <==> (doc.deleted_at is None && (q.status matches Some(s) ==> doc.status == s)),
{
}

} // verus!
