//! Records of the document tables as the domain logic reads them.
//!
//! Identifiers are the 128-bit values of UUIDs; quantities and measurements are
//! decimals (`Quantity`); dates are their ISO text.
use vstd::prelude::*;

use crate::enums::{AdjustmentType, DispatchMethod, DispatchPurpose, DocumentStatus};
use crate::quantity::Quantity;

verus! {

/// An acceptance (goods receipt) document.
#[derive(Debug, Clone)]
pub struct AcceptanceDocument {
    pub id: u128,
    pub document_number: String,
    pub date_accepted: String,
    pub arrival_type: String,
    pub source_entity: Option<String>,
    pub contractor_id: u128,
    pub truck_waybill_id: Option<u128>,
    pub rail_waybill_id: Option<u128>,
    pub transit_dispatch_id: Option<u128>,
    pub status: DocumentStatus,
    pub deleted_at: Option<String>,
}

/// One accepted product line.
#[derive(Debug, Clone)]
pub struct AcceptanceItem {
    pub id: u128,
    pub acceptance_doc_id: u128,
    pub product_id: u128,
    pub contractor_id: u128,
    pub storage_id: u128,
    pub accepted_amount: Quantity,
}

/// A blending document: components are consumed, results produced.
#[derive(Debug, Clone)]
pub struct BlendingDocument {
    pub id: u128,
    pub document_number: String,
    pub date: String,
    pub contractor_id: u128,
    pub target_product_id: u128,
    pub status: DocumentStatus,
    pub deleted_at: Option<String>,
}

/// A source product consumed by a blending.
#[derive(Debug, Clone)]
pub struct BlendingComponent {
    pub id: u128,
    pub blending_doc_id: u128,
    pub storage_id: u128,
    pub source_product_id: u128,
    pub amount_used: Quantity,
}

/// A quantity of the target product produced by a blending.
#[derive(Debug, Clone)]
pub struct BlendingResult {
    pub id: u128,
    pub blending_doc_id: u128,
    pub storage_id: u128,
    pub produced_amount: Quantity,
}

/// A dispatch (goods issue) document.
#[derive(Debug, Clone)]
pub struct DispatchDocument {
    pub id: u128,
    pub document_number: String,
    pub date: String,
    pub dispatch_purpose: DispatchPurpose,
    pub dispatch_method: DispatchMethod,
    pub contractor_id: u128,
    pub destination_base_id: Option<u128>,
    pub receiver_entity: Option<String>,
    pub start_cargo_ops: Option<String>,
    pub end_cargo_ops: Option<String>,
    pub bunker_type: Option<String>,
    pub exporter_id: Option<u128>,
    pub port_id: Option<u128>,
    pub status: DocumentStatus,
    pub deleted_at: Option<String>,
}

/// One dispatched product line.
#[derive(Debug, Clone)]
pub struct DispatchItem {
    pub id: u128,
    pub dispatch_doc_id: u128,
    pub product_id: u128,
    pub storage_id: u128,
    pub dispatched_amount: Quantity,
}

/// Tank readings taken before and after a dispatch.
#[derive(Debug, Clone)]
pub struct DispatchStorageMeasurement {
    pub id: u128,
    pub dispatch_doc_id: u128,
    pub storage_id: u128,
    pub before_height: Option<Quantity>,
    pub before_volume: Option<Quantity>,
    pub before_density: Option<Quantity>,
    pub before_mass: Quantity,
    pub after_height: Option<Quantity>,
    pub after_volume: Option<Quantity>,
    pub after_density: Option<Quantity>,
    pub after_mass: Quantity,
}

/// Transfer of ownership of stored goods between contractors.
#[derive(Debug, Clone)]
pub struct OwnershipTransfer {
    pub id: u128,
    pub date: String,
    pub status: DocumentStatus,
    pub deleted_at: Option<String>,
}

/// One product line of an ownership transfer.
#[derive(Debug, Clone)]
pub struct OwnershipTransferItem {
    pub id: u128,
    pub ownership_transfer_id: u128,
    pub storage_id: u128,
    pub product_id: u128,
    pub from_contractor_id: u128,
    pub to_contractor_id: u128,
    pub amount: Quantity,
}

/// Movement of goods between storages.
#[derive(Debug, Clone)]
pub struct PhysicalStorageTransfer {
    pub id: u128,
    pub document_number: String,
    pub date: String,
    pub contractor_id: u128,
    pub start_cargo_ops: String,
    pub end_cargo_ops: String,
    pub status: DocumentStatus,
    pub deleted_at: Option<String>,
}

/// One product line of a physical storage transfer.
#[derive(Debug, Clone)]
pub struct PhysicalTransferItem {
    pub id: u128,
    pub physical_transfer_id: u128,
    pub product_id: u128,
    pub from_storage_id: u128,
    pub to_storage_id: u128,
    pub amount: Quantity,
}

/// A rail waybill (basis document of a rail receipt).
#[derive(Debug, Clone)]
pub struct RailWaybill {
    pub id: u128,
    pub document_number: String,
    pub date: String,
    pub sender_id: u128,
    pub deleted_at: Option<String>,
}

/// Declared contents of one wagon of a rail waybill.
#[derive(Debug, Clone)]
pub struct RailWagonManifest {
    pub id: u128,
    pub rail_waybill_id: u128,
    pub wagon_number: String,
    pub product_id: u128,
    pub declared_volume: Quantity,
    pub declared_density: Quantity,
    pub declared_mass: Quantity,
    pub deleted_at: Option<String>,
}

/// A measurement of a wagon's contents.
#[derive(Debug, Clone)]
pub struct RailWagonMeasurement {
    pub id: u128,
    pub wagon_manifest_id: u128,
    pub measured_height: Quantity,
    pub lab_density: Option<Quantity>,
    pub calculated_mass: Quantity,
}

/// A weighing of a wagon.
#[derive(Debug, Clone)]
pub struct RailWagonWeight {
    pub id: u128,
    pub wagon_manifest_id: u128,
    pub gross_weight: Quantity,
    pub tare_weight: Quantity,
    pub net_product_weight: Quantity,
}

/// An inventory reconciliation of a warehouse.
#[derive(Debug, Clone)]
pub struct InventoryReconciliation {
    pub id: u128,
    pub document_number: String,
    pub date: String,
    pub contractor_id: u128,
    pub warehouse_id: u128,
    pub status: DocumentStatus,
    pub deleted_at: Option<String>,
}

/// A surplus or loss found by a reconciliation.
#[derive(Debug, Clone)]
pub struct InventoryAdjustment {
    pub id: u128,
    pub reconciliation_id: u128,
    pub storage_id: u128,
    pub product_id: u128,
    pub contractor_id: u128,
    pub adjustment_type: AdjustmentType,
    pub amount: Quantity,
    pub reason: Option<String>,
}

/// A truck waybill (basis document of a truck receipt).
#[derive(Debug, Clone)]
pub struct TruckWaybill {
    pub id: u128,
    pub document_number: String,
    pub date: String,
    pub sender_id: u128,
    pub deleted_at: Option<String>,
}

/// A declared product line of a truck waybill.
#[derive(Debug, Clone)]
pub struct TruckWaybillItem {
    pub id: u128,
    pub truck_waybill_id: u128,
    pub product_id: u128,
    pub declared_amount: Quantity,
}

/// A weighing document of a truck waybill.
#[derive(Debug, Clone)]
pub struct TruckWeightDoc {
    pub id: u128,
    pub truck_waybill_id: u128,
    pub total_weight: Quantity,
}

} // verus!
