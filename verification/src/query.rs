//! Query specifications: filters and paging requested by list endpoints.
//! Record identifiers are the 128-bit values of their UUIDs.
use vstd::prelude::*;

use crate::enums::{AuditTable, DispatchMethod, DispatchPurpose, DocumentStatus, NullableFilter, PipelineStatus};

verus! {

/// Filters for listing acceptance documents.
#[derive(Debug, Clone)]
pub struct AcceptanceDocumentQuerySpec {
    pub document_number: Option<String>,
    pub status: Option<DocumentStatus>,
    pub truck_waybill_id: Option<NullableFilter>,
    pub rail_waybill_id: Option<NullableFilter>,
    pub transit_dispatch_id: Option<NullableFilter>,
    pub page: Option<u64>,
    pub per_page: Option<u64>,
}

impl Default for AcceptanceDocumentQuerySpec {
    /// No filter and no paging.
    fn default() -> (res: Self)
        ensures
            res.document_number is None,
            res.status is None,
            res.truck_waybill_id is None,
            res.rail_waybill_id is None,
            res.transit_dispatch_id is None,
            res.page is None,
            res.per_page is None,
    {
        AcceptanceDocumentQuerySpec {
            document_number: None,
            status: None,
            truck_waybill_id: None,
            rail_waybill_id: None,
            transit_dispatch_id: None,
            page: None,
            per_page: None,
        }
    }
}

impl AcceptanceDocumentQuerySpec {
    /// An unfiltered listing of the given page.
    pub fn list(page: Option<u64>, per_page: Option<u64>) -> (res: Self)
        ensures
            res.page == page,
            res.per_page == per_page,
            res.document_number is None,
            res.status is None,
            res.truck_waybill_id is None,
            res.rail_waybill_id is None,
            res.transit_dispatch_id is None,
    {
        AcceptanceDocumentQuerySpec {
            document_number: None,
            status: None,
            truck_waybill_id: None,
            rail_waybill_id: None,
            transit_dispatch_id: None,
            page,
            per_page,
        }
    }
}

/// Filters for the one-row-per-item acceptance listing.
#[derive(Debug, Clone)]
pub struct AcceptanceFlatQuerySpec {
    pub status: Option<DocumentStatus>,
    pub page: Option<u64>,
    pub per_page: Option<u64>,
}

impl Default for AcceptanceFlatQuerySpec {
    /// No filter and no paging.
    fn default() -> (res: Self)
        ensures
            res.status is None,
            res.page is None,
            res.per_page is None,
    {
        AcceptanceFlatQuerySpec {
            status: None,
            page: None,
            per_page: None,
        }
    }
}

impl AcceptanceFlatQuerySpec {
    /// An unfiltered listing of the given page.
    pub fn list(page: Option<u64>, per_page: Option<u64>) -> (res: Self)
        ensures
            res.page == page,
            res.per_page == per_page,
            res.status is None,
    {
        AcceptanceFlatQuerySpec {
            status: None,
            page,
            per_page,
        }
    }
}

/// Filters for listing dispatch documents.
#[derive(Debug, Clone)]
pub struct DispatchDocumentQuerySpec {
    pub document_number: Option<String>,
    pub status: Option<DocumentStatus>,
    pub contractor_id: Option<u128>,
    pub dispatch_method: Option<DispatchMethod>,
    pub dispatch_purpose: Option<DispatchPurpose>,
    pub page: Option<u64>,
    pub per_page: Option<u64>,
}

impl Default for DispatchDocumentQuerySpec {
    /// No filter and no paging.
    fn default() -> (res: Self)
        ensures
            res.document_number is None,
            res.status is None,
            res.contractor_id is None,
            res.dispatch_method is None,
            res.dispatch_purpose is None,
            res.page is None,
            res.per_page is None,
    {
        DispatchDocumentQuerySpec {
            document_number: None,
            status: None,
            contractor_id: None,
            dispatch_method: None,
            dispatch_purpose: None,
            page: None,
            per_page: None,
        }
    }
}

impl DispatchDocumentQuerySpec {
    /// An unfiltered listing of the given page.
    pub fn list(page: Option<u64>, per_page: Option<u64>) -> (res: Self)
        ensures
            res.page == page,
            res.per_page == per_page,
            res.document_number is None,
            res.status is None,
            res.contractor_id is None,
            res.dispatch_method is None,
            res.dispatch_purpose is None,
    {
        DispatchDocumentQuerySpec {
            document_number: None,
            status: None,
            contractor_id: None,
            dispatch_method: None,
            dispatch_purpose: None,
            page,
            per_page,
        }
    }
}

/// Filters for the one-row-per-item dispatch listing.
#[derive(Debug, Clone)]
pub struct DispatchFlatQuerySpec {
    pub status: Option<DocumentStatus>,
    pub dispatch_method: Option<DispatchMethod>,
    pub dispatch_purpose: Option<DispatchPurpose>,
    pub page: Option<u64>,
    pub per_page: Option<u64>,
}

impl Default for DispatchFlatQuerySpec {
    /// No filter and no paging.
    fn default() -> (res: Self)
        ensures
            res.status is None,
            res.dispatch_method is None,
            res.dispatch_purpose is None,
            res.page is None,
            res.per_page is None,
    {
        DispatchFlatQuerySpec {
            status: None,
            dispatch_method: None,
            dispatch_purpose: None,
            page: None,
            per_page: None,
        }
    }
}

impl DispatchFlatQuerySpec {
    /// An unfiltered listing of the given page.
    pub fn list(page: Option<u64>, per_page: Option<u64>) -> (res: Self)
        ensures
            res.page == page,
            res.per_page == per_page,
            res.status is None,
            res.dispatch_method is None,
            res.dispatch_purpose is None,
    {
        DispatchFlatQuerySpec {
            status: None,
            dispatch_method: None,
            dispatch_purpose: None,
            page,
            per_page,
        }
    }
}

/// Filters for the truck dispatch pipeline.
#[derive(Debug, Clone)]
pub struct TruckDispatchPipelineQuerySpec {
    pub pipeline_status: Option<PipelineStatus>,
    pub contractor_id: Option<u128>,
    pub page: Option<u64>,
    pub per_page: Option<u64>,
}

impl Default for TruckDispatchPipelineQuerySpec {
    /// No filter and no paging.
    fn default() -> (res: Self)
        ensures
            res.pipeline_status is None,
            res.contractor_id is None,
            res.page is None,
            res.per_page is None,
    {
        TruckDispatchPipelineQuerySpec {
            pipeline_status: None,
            contractor_id: None,
            page: None,
            per_page: None,
        }
    }
}

impl TruckDispatchPipelineQuerySpec {
    /// An unfiltered listing of the given page.
    pub fn list(page: Option<u64>, per_page: Option<u64>) -> (res: Self)
        ensures
            res.page == page,
            res.per_page == per_page,
            res.pipeline_status is None,
            res.contractor_id is None,
    {
        TruckDispatchPipelineQuerySpec {
            pipeline_status: None,
            contractor_id: None,
            page,
            per_page,
        }
    }
}

/// Filters for listing blending documents.
#[derive(Debug, Clone)]
pub struct BlendingDocumentQuerySpec {
    pub document_number: Option<String>,
    pub status: Option<DocumentStatus>,
    pub contractor_id: Option<u128>,
    pub page: Option<u64>,
    pub per_page: Option<u64>,
}

impl Default for BlendingDocumentQuerySpec {
    /// No filter and no paging.
    fn default() -> (res: Self)
        ensures
            res.document_number is None,
            res.status is None,
            res.contractor_id is None,
            res.page is None,
            res.per_page is None,
    {
        BlendingDocumentQuerySpec {
            document_number: None,
            status: None,
            contractor_id: None,
            page: None,
            per_page: None,
        }
    }
}

impl BlendingDocumentQuerySpec {
    /// An unfiltered listing of the given page.
    pub fn list(page: Option<u64>, per_page: Option<u64>) -> (res: Self)
        ensures
            res.page == page,
            res.per_page == per_page,
            res.document_number is None,
            res.status is None,
            res.contractor_id is None,
    {
        BlendingDocumentQuerySpec {
            document_number: None,
            status: None,
            contractor_id: None,
            page,
            per_page,
        }
    }
}

/// Filters for the one-row-per-line blending listing.
#[derive(Debug, Clone)]
pub struct BlendingFlatQuerySpec {
    pub status: Option<DocumentStatus>,
    pub page: Option<u64>,
    pub per_page: Option<u64>,
}

impl Default for BlendingFlatQuerySpec {
    /// No filter and no paging.
    fn default() -> (res: Self)
        ensures
            res.status is None,
            res.page is None,
            res.per_page is None,
    {
        BlendingFlatQuerySpec {
            status: None,
            page: None,
            per_page: None,
        }
    }
}

impl BlendingFlatQuerySpec {
    /// An unfiltered listing of the given page.
    pub fn list(page: Option<u64>, per_page: Option<u64>) -> (res: Self)
        ensures
            res.page == page,
            res.per_page == per_page,
            res.status is None,
    {
        BlendingFlatQuerySpec {
            status: None,
            page,
            per_page,
        }
    }
}

/// Filters for listing inventory reconciliations.
#[derive(Debug, Clone)]
pub struct ReconciliationQuerySpec {
    pub document_number: Option<String>,
    pub status: Option<DocumentStatus>,
    pub warehouse_id: Option<u128>,
    pub page: Option<u64>,
    pub per_page: Option<u64>,
}

impl Default for ReconciliationQuerySpec {
    /// No filter and no paging.
    fn default() -> (res: Self)
        ensures
            res.document_number is None,
            res.status is None,
            res.warehouse_id is None,
            res.page is None,
            res.per_page is None,
    {
        ReconciliationQuerySpec {
            document_number: None,
            status: None,
            warehouse_id: None,
            page: None,
            per_page: None,
        }
    }
}

impl ReconciliationQuerySpec {
    /// An unfiltered listing of the given page.
    pub fn list(page: Option<u64>, per_page: Option<u64>) -> (res: Self)
        ensures
            res.page == page,
            res.per_page == per_page,
            res.document_number is None,
            res.status is None,
            res.warehouse_id is None,
    {
        ReconciliationQuerySpec {
            document_number: None,
            status: None,
            warehouse_id: None,
            page,
            per_page,
        }
    }
}

/// Filters for the one-row-per-adjustment reconciliation listing.
#[derive(Debug, Clone)]
pub struct ReconciliationFlatQuerySpec {
    pub status: Option<DocumentStatus>,
    pub page: Option<u64>,
    pub per_page: Option<u64>,
}

impl Default for ReconciliationFlatQuerySpec {
    /// No filter and no paging.
    fn default() -> (res: Self)
        ensures
            res.status is None,
            res.page is None,
            res.per_page is None,
    {
        ReconciliationFlatQuerySpec {
            status: None,
            page: None,
            per_page: None,
        }
    }
}

impl ReconciliationFlatQuerySpec {
    /// An unfiltered listing of the given page.
    pub fn list(page: Option<u64>, per_page: Option<u64>) -> (res: Self)
        ensures
            res.page == page,
            res.per_page == per_page,
            res.status is None,
    {
        ReconciliationFlatQuerySpec {
            status: None,
            page,
            per_page,
        }
    }
}

/// Filters for listing truck waybills.
#[derive(Debug, Clone)]
pub struct TruckWaybillQuerySpec {
    pub document_number: Option<String>,
    pub sender_id: Option<u128>,
    pub page: Option<u64>,
    pub per_page: Option<u64>,
}

impl Default for TruckWaybillQuerySpec {
    /// No filter and no paging.
    fn default() -> (res: Self)
        ensures
            res.document_number is None,
            res.sender_id is None,
            res.page is None,
            res.per_page is None,
    {
        TruckWaybillQuerySpec {
            document_number: None,
            sender_id: None,
            page: None,
            per_page: None,
        }
    }
}

impl TruckWaybillQuerySpec {
    /// An unfiltered listing of the given page.
    pub fn list(page: Option<u64>, per_page: Option<u64>) -> (res: Self)
        ensures
            res.page == page,
            res.per_page == per_page,
            res.document_number is None,
            res.sender_id is None,
    {
        TruckWaybillQuerySpec {
            document_number: None,
            sender_id: None,
            page,
            per_page,
        }
    }
}

/// Filters for the truck receipt pipeline.
#[derive(Debug, Clone)]
pub struct TruckReceiptPipelineQuerySpec {
    pub pipeline_status: Option<PipelineStatus>,
    pub contractor_id: Option<u128>,
    pub page: Option<u64>,
    pub per_page: Option<u64>,
}

impl Default for TruckReceiptPipelineQuerySpec {
    /// No filter and no paging.
    fn default() -> (res: Self)
        ensures
            res.pipeline_status is None,
            res.contractor_id is None,
            res.page is None,
            res.per_page is None,
    {
        TruckReceiptPipelineQuerySpec {
            pipeline_status: None,
            contractor_id: None,
            page: None,
            per_page: None,
        }
    }
}

impl TruckReceiptPipelineQuerySpec {
    /// An unfiltered listing of the given page.
    pub fn list(page: Option<u64>, per_page: Option<u64>) -> (res: Self)
        ensures
            res.page == page,
            res.per_page == per_page,
            res.pipeline_status is None,
            res.contractor_id is None,
    {
        TruckReceiptPipelineQuerySpec {
            pipeline_status: None,
            contractor_id: None,
            page,
            per_page,
        }
    }
}

/// Filters for listing rail waybills.
#[derive(Debug, Clone)]
pub struct RailWaybillQuerySpec {
    pub document_number: Option<String>,
    pub sender_id: Option<u128>,
    pub page: Option<u64>,
    pub per_page: Option<u64>,
}

impl Default for RailWaybillQuerySpec {
    /// No filter and no paging.
    fn default() -> (res: Self)
        ensures
            res.document_number is None,
            res.sender_id is None,
            res.page is None,
            res.per_page is None,
    {
        RailWaybillQuerySpec {
            document_number: None,
            sender_id: None,
            page: None,
            per_page: None,
        }
    }
}

impl RailWaybillQuerySpec {
    /// An unfiltered listing of the given page.
    pub fn list(page: Option<u64>, per_page: Option<u64>) -> (res: Self)
        ensures
            res.page == page,
            res.per_page == per_page,
            res.document_number is None,
            res.sender_id is None,
    {
        RailWaybillQuerySpec {
            document_number: None,
            sender_id: None,
            page,
            per_page,
        }
    }
}

/// Filters for the rail receipt pipeline.
#[derive(Debug, Clone)]
pub struct RailReceiptPipelineQuerySpec {
    pub pipeline_status: Option<PipelineStatus>,
    pub contractor_id: Option<u128>,
    pub page: Option<u64>,
    pub per_page: Option<u64>,
}

impl Default for RailReceiptPipelineQuerySpec {
    /// No filter and no paging.
    fn default() -> (res: Self)
        ensures
            res.pipeline_status is None,
            res.contractor_id is None,
            res.page is None,
            res.per_page is None,
    {
        RailReceiptPipelineQuerySpec {
            pipeline_status: None,
            contractor_id: None,
            page: None,
            per_page: None,
        }
    }
}

impl RailReceiptPipelineQuerySpec {
    /// An unfiltered listing of the given page.
    pub fn list(page: Option<u64>, per_page: Option<u64>) -> (res: Self)
        ensures
            res.page == page,
            res.per_page == per_page,
            res.pipeline_status is None,
            res.contractor_id is None,
    {
        RailReceiptPipelineQuerySpec {
            pipeline_status: None,
            contractor_id: None,
            page,
            per_page,
        }
    }
}

/// Filters for listing physical storage transfers.
#[derive(Debug, Clone)]
pub struct PhysicalTransferQuerySpec {
    pub document_number: Option<String>,
    pub status: Option<DocumentStatus>,
    pub page: Option<u64>,
    pub per_page: Option<u64>,
}

impl Default for PhysicalTransferQuerySpec {
    /// No filter and no paging.
    fn default() -> (res: Self)
        ensures
            res.document_number is None,
            res.status is None,
            res.page is None,
            res.per_page is None,
    {
        PhysicalTransferQuerySpec {
            document_number: None,
            status: None,
            page: None,
            per_page: None,
        }
    }
}

impl PhysicalTransferQuerySpec {
    /// An unfiltered listing of the given page.
    pub fn list(page: Option<u64>, per_page: Option<u64>) -> (res: Self)
        ensures
            res.page == page,
            res.per_page == per_page,
            res.document_number is None,
            res.status is None,
    {
        PhysicalTransferQuerySpec {
            document_number: None,
            status: None,
            page,
            per_page,
        }
    }
}

/// Filters for the one-row-per-item physical transfer listing.
#[derive(Debug, Clone)]
pub struct PhysicalTransferFlatQuerySpec {
    pub status: Option<DocumentStatus>,
    pub page: Option<u64>,
    pub per_page: Option<u64>,
}

impl Default for PhysicalTransferFlatQuerySpec {
    /// No filter and no paging.
    fn default() -> (res: Self)
        ensures
            res.status is None,
            res.page is None,
            res.per_page is None,
    {
        PhysicalTransferFlatQuerySpec {
            status: None,
            page: None,
            per_page: None,
        }
    }
}

impl PhysicalTransferFlatQuerySpec {
    /// An unfiltered listing of the given page.
    pub fn list(page: Option<u64>, per_page: Option<u64>) -> (res: Self)
        ensures
            res.page == page,
            res.per_page == per_page,
            res.status is None,
    {
        PhysicalTransferFlatQuerySpec {
            status: None,
            page,
            per_page,
        }
    }
}

/// Filters for listing ownership transfers.
#[derive(Debug, Clone)]
pub struct OwnershipTransferQuerySpec {
    pub status: Option<DocumentStatus>,
    pub page: Option<u64>,
    pub per_page: Option<u64>,
}

impl Default for OwnershipTransferQuerySpec {
    /// No filter and no paging.
    fn default() -> (res: Self)
        ensures
            res.status is None,
            res.page is None,
            res.per_page is None,
    {
        OwnershipTransferQuerySpec {
            status: None,
            page: None,
            per_page: None,
        }
    }
}

impl OwnershipTransferQuerySpec {
    /// An unfiltered listing of the given page.
    pub fn list(page: Option<u64>, per_page: Option<u64>) -> (res: Self)
        ensures
            res.page == page,
            res.per_page == per_page,
            res.status is None,
    {
        OwnershipTransferQuerySpec {
            status: None,
            page,
            per_page,
        }
    }
}

/// Filters for the one-row-per-item ownership transfer listing.
#[derive(Debug, Clone)]
pub struct OwnershipTransferFlatQuerySpec {
    pub status: Option<DocumentStatus>,
    pub page: Option<u64>,
    pub per_page: Option<u64>,
}

impl Default for OwnershipTransferFlatQuerySpec {
    /// No filter and no paging.
    fn default() -> (res: Self)
        ensures
            res.status is None,
            res.page is None,
            res.per_page is None,
    {
        OwnershipTransferFlatQuerySpec {
            status: None,
            page: None,
            per_page: None,
        }
    }
}

impl OwnershipTransferFlatQuerySpec {
    /// An unfiltered listing of the given page.
    pub fn list(page: Option<u64>, per_page: Option<u64>) -> (res: Self)
        ensures
            res.page == page,
            res.per_page == per_page,
            res.status is None,
    {
        OwnershipTransferFlatQuerySpec {
            status: None,
            page,
            per_page,
        }
    }
}

/// Paging of the cargo flow view.
#[derive(Debug, Clone)]
pub struct CargoFlowQuerySpec {
    pub page: Option<u64>,
    pub per_page: Option<u64>,
}

impl Default for CargoFlowQuerySpec {
    /// No filter and no paging.
    fn default() -> (res: Self)
        ensures
            res.page is None,
            res.per_page is None,
    {
        CargoFlowQuerySpec {
            page: None,
            per_page: None,
        }
    }
}

impl CargoFlowQuerySpec {
    /// An unfiltered listing of the given page.
    pub fn list(page: Option<u64>, per_page: Option<u64>) -> (res: Self)
        ensures
            res.page == page,
            res.per_page == per_page,
    {
        CargoFlowQuerySpec {
            page,
            per_page,
        }
    }
}

/// Filters for listing audit logs.
#[derive(Debug, Clone)]
pub struct AuditLogQuerySpec {
    pub table_name: Option<AuditTable>,
    pub record_id: Option<u128>,
    pub origin_db_id: Option<u128>,
    pub limit: Option<u64>,
    pub offset: Option<u64>,
}

impl Default for AuditLogQuerySpec {
    /// No filter and no paging.
    fn default() -> (res: Self)
        ensures
            res.table_name is None,
            res.record_id is None,
            res.origin_db_id is None,
            res.limit is None,
            res.offset is None,
    {
        AuditLogQuerySpec { table_name: None, record_id: None, origin_db_id: None, limit: None, offset: None }
    }
}

/// The audit logs to send to another node: those after a cursor.
#[derive(Debug, Clone)]
pub struct OutboundAuditLogsQuerySpec {
    pub after_audit_log_id: u128,
    pub limit: Option<u64>,
}

impl OutboundAuditLogsQuerySpec {
    /// The logs after `after_audit_log_id`, at most `limit` of them.
    pub fn new(after_audit_log_id: u128, limit: Option<u64>) -> (res: Self)
        ensures
            res.after_audit_log_id == after_audit_log_id,
            res.limit == limit,
    {
        OutboundAuditLogsQuerySpec { after_audit_log_id, limit }
    }
}

/// The audit logs that another node pulls: those after its cursor that concern
/// its bases.
#[derive(Debug, Clone)]
pub struct PullAuditLogsQuerySpec {
    pub last_audit_log_id: u128,
    pub base_ids: Vec<u128>,
    pub limit: Option<u64>,
}

impl PullAuditLogsQuerySpec {
    /// The logs after `last_audit_log_id` for the given bases, at most `limit`.
    pub fn new(last_audit_log_id: u128, base_ids: Vec<u128>, limit: Option<u64>) -> (res: Self)
        ensures
            res.last_audit_log_id == last_audit_log_id,
            res.base_ids@ == base_ids@,
            res.limit == limit,
    {
        PullAuditLogsQuerySpec { last_audit_log_id, base_ids, limit }
    }
}

/// The bases whose newest matching audit log a status request asks for.
#[derive(Debug, Clone)]
pub struct SyncStatusQuerySpec {
    pub base_ids: Vec<u128>,
}

impl Default for SyncStatusQuerySpec {
    /// No base.
    fn default() -> (res: Self)
        ensures
            res.base_ids@.len() == 0,
    {
        SyncStatusQuerySpec { base_ids: Vec::new() }
    }
}

impl SyncStatusQuerySpec {
    /// A status request for the given bases.
    pub fn new(base_ids: Vec<u128>) -> (res: Self)
        ensures
            res.base_ids@ == base_ids@,
    {
        SyncStatusQuerySpec { base_ids }
    }
}

} // verus!
