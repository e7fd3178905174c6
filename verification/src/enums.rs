//! Enumerations shared by documents, the ledger and synchronisation.
use vstd::prelude::*;

verus! {

/// Lifecycle status of an inventory document.
#[derive(Debug, Clone, Copy, PartialEq, Eq, Structural)]
pub enum DocumentStatus {
    Draft,
    Executed,
}

/// Status of a document inside a receipt or dispatch pipeline.
#[derive(Debug, Clone, Copy, PartialEq, Eq, Structural)]
pub enum PipelineStatus {
    Pending,
    Draft,
    Executed,
}

/// The pipeline status that a (possibly missing) document status stands for.
pub open spec fn pipeline_status_of(status: Option<DocumentStatus>) -> PipelineStatus {
    match status {
        None => PipelineStatus::Pending,
        Some(DocumentStatus::Draft) => PipelineStatus::Draft,
        Some(DocumentStatus::Executed) => PipelineStatus::Executed,
    }
}

impl PipelineStatus {
    /// A basis document without an action document is pending; otherwise the
    /// pipeline follows the action document's status.
    pub fn from_doc_status(status: Option<&DocumentStatus>) -> (res: PipelineStatus)
        ensures
            res == pipeline_status_of(
                match status {
                    Some(s) => Some(*s),
                    None => None,
                },
            ),
    {
        match status {
            None => PipelineStatus::Pending,
            Some(DocumentStatus::Draft) => PipelineStatus::Draft,
            Some(DocumentStatus::Executed) => PipelineStatus::Executed,
        }
    }
}

/// How goods leave a warehouse.
#[derive(Debug, Clone, Copy, PartialEq, Eq, Structural)]
pub enum DispatchMethod {
    Truck,
    VesselTerminal,
    Bunkering,
}

/// Whether a dispatch leaves the company or moves goods between its own bases.
#[derive(Debug, Clone, Copy, PartialEq, Eq, Structural)]
pub enum DispatchPurpose {
    External,
    Internal,
}

/// Direction of an inventory adjustment.
#[derive(Debug, Clone, Copy, PartialEq, Eq, Structural)]
pub enum AdjustmentType {
    Surplus,
    Loss,
}

/// Filter on a nullable column.
#[derive(Debug, Clone, Copy, PartialEq, Eq, Structural)]
pub enum NullableFilter {
    IsNull,
    IsNotNull,
}

/// Replication direction of a sync watermark.
#[derive(Debug, Clone, Copy, PartialEq, Eq, Structural)]
pub enum SyncDirection {
    Pull,
    Push,
}

/// Kind of an audited change.
#[derive(Debug, Clone, Copy, PartialEq, Eq, Structural)]
pub enum AuditAction {
    Insert,
    Update,
    HardDelete,
}

/// Which document kind produced a ledger entry.
#[derive(Debug, Clone, Copy, PartialEq, Eq, Structural)]
pub enum LedgerEntrySourceKind {
    AcceptanceDocument,
    DispatchDocument,
    BlendingDocument,
    PhysicalStorageTransfer,
    OwnershipTransfer,
    InventoryReconciliation,
}

/// Whether a ledger entry records an execution or its reversion.
#[derive(Debug, Clone, Copy, PartialEq, Eq, Structural)]
pub enum LedgerEntrySourceEvent {
    Execution,
    Reversion,
}

/// State of the background sync worker.
#[derive(Debug, Clone, Copy, PartialEq, Eq, Structural)]
pub enum WorkerState {
    Sleeping,
    OnlineIdle,
    Syncing,
    Offline,
}

/// Direction of goods in the cargo flow view.
#[derive(Debug, Clone, Copy, PartialEq, Eq, Structural)]
pub enum FlowType {
    Incoming,
    Outgoing,
    Internal,
}

/// Entity that a cargo flow row stands for.
#[derive(Debug, Clone, Copy, PartialEq, Eq, Structural)]
pub enum FlowEntityType {
    Dispatch,
    Acceptance,
    TruckWaybill,
    RailWaybill,
    Blending,
    PhysicalTransfer,
    OwnershipTransfer,
    Reconciliation,
}

/// Tables whose changes are recorded in the audit log.
#[derive(Debug, Clone, Copy, PartialEq, Eq, Structural)]
pub enum AuditTable {
    AuditLogs,
    Local,
    Roles,
    AcceptanceDocuments,
    AcceptanceItems,
    Bases,
    BlendingComponents,
    BlendingDocuments,
    BlendingResults,
    Companies,
    DatabaseInstances,
    DispatchDocuments,
    DispatchItems,
    DispatchStorageMeasurements,
    InventoryAdjustments,
    InventoryLedgerEntries,
    InventoryReconciliations,
    OwnershipTransfers,
    OwnershipTransferItems,
    PhysicalStorageTransfers,
    PhysicalTransferItems,
    Ports,
    Products,
    ProductGroups,
    ProductTypes,
    RailWagonManifests,
    RailWagonMeasurements,
    RailWagonWeights,
    RailWaybills,
    RefreshTokens,
    Storages,
    SyncWatermarks,
    TruckWaybills,
    TruckWaybillItems,
    TruckWeightDocs,
    Users,
    Warehouses,
}

/// The tables that never replicate between nodes: the audit log itself and
/// node-local bookkeeping.
pub open spec fn spec_sync_excluded_tables() -> Seq<AuditTable> {
    seq![AuditTable::AuditLogs, AuditTable::Local, AuditTable::Roles]
}

impl AuditTable {
    /// The tables that never replicate between nodes.
    pub fn sync_excluded_tables() -> (res: Vec<AuditTable>)
        ensures
            res@ == spec_sync_excluded_tables(),
    {
        let mut v: Vec<AuditTable> = Vec::new();
        v.push(AuditTable::AuditLogs);
        v.push(AuditTable::Local);
        v.push(AuditTable::Roles);
        v
    }

    /// Whether changes of this table are restored on other nodes.
    pub fn replicates(&self) -> (res: bool)
        ensures
            res == !spec_sync_excluded_tables().contains(*self),
    {
        let r = match self {
            AuditTable::AuditLogs | AuditTable::Local | AuditTable::Roles => false,
            _ => true,
        };
        proof {
            if r {
                assert forall|i: int| 0 <= i < 3 implies spec_sync_excluded_tables()[i] != *self by {}
            } else {
                let s = spec_sync_excluded_tables();
                if *self == AuditTable::AuditLogs { assert(s[0] == *self); }
                else if *self == AuditTable::Local { assert(s[1] == *self); }
                else { assert(s[2] == *self); }
            }
        }
        r
    }
}

} // verus!
