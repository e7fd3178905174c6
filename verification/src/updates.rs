//! Partial updates: each field given in a request replaces the stored value;
//! every other field keeps its value.
use vstd::prelude::*;

use crate::enums::{AdjustmentType, DispatchMethod, DispatchPurpose};
use crate::quantity::Quantity;
use crate::models::{
    AcceptanceDocument, AcceptanceItem, BlendingComponent, BlendingDocument, BlendingResult, DispatchDocument, DispatchItem, DispatchStorageMeasurement, InventoryAdjustment, InventoryReconciliation, OwnershipTransfer, OwnershipTransferItem, PhysicalStorageTransfer, PhysicalTransferItem, RailWagonManifest, RailWagonMeasurement, RailWagonWeight, RailWaybill, TruckWaybill, TruckWaybillItem, TruckWeightDoc,
};

verus! {

/// The fields of an acceptance document that an update may set.
#[derive(Debug, Clone)]
pub struct UpdateAcceptanceRequest {
    pub document_number: Option<String>,
    pub date_accepted: Option<String>,
    pub arrival_type: Option<String>,
    pub source_entity: Option<String>,
    pub contractor_id: Option<u128>,
    pub truck_waybill_id: Option<u128>,
    pub rail_waybill_id: Option<u128>,
    pub transit_dispatch_id: Option<u128>,
}

/// Applies an update request to an acceptance document.
pub fn apply_acceptance_document_update(model: &mut AcceptanceDocument, req: &UpdateAcceptanceRequest)
    ensures
        final(model).document_number == (match req.document_number {
            Some(v) => v,
            None => old(model).document_number,
        }),
        final(model).date_accepted == (match req.date_accepted {
            Some(v) => v,
            None => old(model).date_accepted,
        }),
        final(model).arrival_type == (match req.arrival_type {
            Some(v) => v,
            None => old(model).arrival_type,
        }),
        final(model).source_entity == (match req.source_entity {
            Some(v) => Some(v),
            None => old(model).source_entity,
        }),
        final(model).contractor_id == (match req.contractor_id {
            Some(v) => v,
            None => old(model).contractor_id,
        }),
        final(model).truck_waybill_id == (match req.truck_waybill_id {
            Some(v) => Some(v),
            None => old(model).truck_waybill_id,
        }),
        final(model).rail_waybill_id == (match req.rail_waybill_id {
            Some(v) => Some(v),
            None => old(model).rail_waybill_id,
        }),
        final(model).transit_dispatch_id == (match req.transit_dispatch_id {
            Some(v) => Some(v),
            None => old(model).transit_dispatch_id,
        }),
        final(model).id == old(model).id,
        final(model).status == old(model).status,
        final(model).deleted_at == old(model).deleted_at,
{
    if let Some(v) = &req.document_number {
        model.document_number = v.clone();
    }
    if let Some(v) = &req.date_accepted {
        model.date_accepted = v.clone();
    }
    if let Some(v) = &req.arrival_type {
        model.arrival_type = v.clone();
    }
    if let Some(v) = &req.source_entity {
        model.source_entity = Some(v.clone());
    }
    if let Some(v) = &req.contractor_id {
        model.contractor_id = *v;
    }
    if let Some(v) = &req.truck_waybill_id {
        model.truck_waybill_id = Some(*v);
    }
    if let Some(v) = &req.rail_waybill_id {
        model.rail_waybill_id = Some(*v);
    }
    if let Some(v) = &req.transit_dispatch_id {
        model.transit_dispatch_id = Some(*v);
    }
}

/// The fields of an acceptance item that an update may set.
#[derive(Debug, Clone)]
pub struct UpdateAcceptanceItemRequest {
    pub product_id: Option<u128>,
    pub contractor_id: Option<u128>,
    pub storage_id: Option<u128>,
    pub accepted_amount: Option<Quantity>,
}

/// Applies an update request to an acceptance item.
pub fn apply_acceptance_item_update(model: &mut AcceptanceItem, req: &UpdateAcceptanceItemRequest)
    ensures
        final(model).product_id == (match req.product_id {
            Some(v) => v,
            None => old(model).product_id,
        }),
        final(model).contractor_id == (match req.contractor_id {
            Some(v) => v,
            None => old(model).contractor_id,
        }),
        final(model).storage_id == (match req.storage_id {
            Some(v) => v,
            None => old(model).storage_id,
        }),
        final(model).accepted_amount == (match req.accepted_amount {
            Some(v) => v,
            None => old(model).accepted_amount,
        }),
        final(model).id == old(model).id,
        final(model).acceptance_doc_id == old(model).acceptance_doc_id,
{
    if let Some(v) = &req.product_id {
        model.product_id = *v;
    }
    if let Some(v) = &req.contractor_id {
        model.contractor_id = *v;
    }
    if let Some(v) = &req.storage_id {
        model.storage_id = *v;
    }
    if let Some(v) = &req.accepted_amount {
        model.accepted_amount = *v;
    }
}

/// The fields of a blending component that an update may set.
#[derive(Debug, Clone)]
pub struct UpdateBlendingComponentRequest {
    pub storage_id: Option<u128>,
    pub source_product_id: Option<u128>,
    pub amount_used: Option<Quantity>,
}

/// Applies an update request to a blending component.
pub fn apply_blending_component_update(model: &mut BlendingComponent, req: &UpdateBlendingComponentRequest)
    ensures
        final(model).storage_id == (match req.storage_id {
            Some(v) => v,
            None => old(model).storage_id,
        }),
        final(model).source_product_id == (match req.source_product_id {
            Some(v) => v,
            None => old(model).source_product_id,
        }),
        final(model).amount_used == (match req.amount_used {
            Some(v) => v,
            None => old(model).amount_used,
        }),
        final(model).id == old(model).id,
        final(model).blending_doc_id == old(model).blending_doc_id,
{
    if let Some(v) = &req.storage_id {
        model.storage_id = *v;
    }
    if let Some(v) = &req.source_product_id {
        model.source_product_id = *v;
    }
    if let Some(v) = &req.amount_used {
        model.amount_used = *v;
    }
}

/// The fields of a blending document that an update may set.
#[derive(Debug, Clone)]
pub struct UpdateBlendingRequest {
    pub document_number: Option<String>,
    pub date: Option<String>,
    pub contractor_id: Option<u128>,
    pub target_product_id: Option<u128>,
}

/// Applies an update request to a blending document.
pub fn apply_blending_document_update(model: &mut BlendingDocument, req: &UpdateBlendingRequest)
    ensures
        final(model).document_number == (match req.document_number {
            Some(v) => v,
            None => old(model).document_number,
        }),
        final(model).date == (match req.date {
            Some(v) => v,
            None => old(model).date,
        }),
        final(model).contractor_id == (match req.contractor_id {
            Some(v) => v,
            None => old(model).contractor_id,
        }),
        final(model).target_product_id == (match req.target_product_id {
            Some(v) => v,
            None => old(model).target_product_id,
        }),
        final(model).id == old(model).id,
        final(model).status == old(model).status,
        final(model).deleted_at == old(model).deleted_at,
{
    if let Some(v) = &req.document_number {
        model.document_number = v.clone();
    }
    if let Some(v) = &req.date {
        model.date = v.clone();
    }
    if let Some(v) = &req.contractor_id {
        model.contractor_id = *v;
    }
    if let Some(v) = &req.target_product_id {
        model.target_product_id = *v;
    }
}

/// The fields of a blending result that an update may set.
#[derive(Debug, Clone)]
pub struct UpdateBlendingResultRequest {
    pub storage_id: Option<u128>,
    pub produced_amount: Option<Quantity>,
}

/// Applies an update request to a blending result.
pub fn apply_blending_result_update(model: &mut BlendingResult, req: &UpdateBlendingResultRequest)
    ensures
        final(model).storage_id == (match req.storage_id {
            Some(v) => v,
            None => old(model).storage_id,
        }),
        final(model).produced_amount == (match req.produced_amount {
            Some(v) => v,
            None => old(model).produced_amount,
        }),
        final(model).id == old(model).id,
        final(model).blending_doc_id == old(model).blending_doc_id,
{
    if let Some(v) = &req.storage_id {
        model.storage_id = *v;
    }
    if let Some(v) = &req.produced_amount {
        model.produced_amount = *v;
    }
}

/// The fields of a dispatch document that an update may set.
#[derive(Debug, Clone)]
pub struct UpdateDispatchRequest {
    pub document_number: Option<String>,
    pub date: Option<String>,
    pub dispatch_purpose: Option<DispatchPurpose>,
    pub dispatch_method: Option<DispatchMethod>,
    pub contractor_id: Option<u128>,
    pub destination_base_id: Option<u128>,
    pub receiver_entity: Option<String>,
    pub start_cargo_ops: Option<String>,
    pub end_cargo_ops: Option<String>,
    pub bunker_type: Option<String>,
    pub exporter_id: Option<u128>,
    pub port_id: Option<u128>,
}

/// Applies an update request to a dispatch document.
#[verifier::rlimit(60)]
pub fn apply_dispatch_document_update(model: &mut DispatchDocument, req: &UpdateDispatchRequest)
    ensures
        final(model).document_number == (match req.document_number {
            Some(v) => v,
            None => old(model).document_number,
        }),
        final(model).date == (match req.date {
            Some(v) => v,
            None => old(model).date,
        }),
        final(model).dispatch_purpose == (match req.dispatch_purpose {
            Some(v) => v,
            None => old(model).dispatch_purpose,
        }),
        final(model).dispatch_method == (match req.dispatch_method {
            Some(v) => v,
            None => old(model).dispatch_method,
        }),
        final(model).contractor_id == (match req.contractor_id {
            Some(v) => v,
            None => old(model).contractor_id,
        }),
        final(model).destination_base_id == (match req.destination_base_id {
            Some(v) => Some(v),
            None => old(model).destination_base_id,
        }),
        final(model).receiver_entity == (match req.receiver_entity {
            Some(v) => Some(v),
            None => old(model).receiver_entity,
        }),
        final(model).start_cargo_ops == (match req.start_cargo_ops {
            Some(v) => Some(v),
            None => old(model).start_cargo_ops,
        }),
        final(model).end_cargo_ops == (match req.end_cargo_ops {
            Some(v) => Some(v),
            None => old(model).end_cargo_ops,
        }),
        final(model).bunker_type == (match req.bunker_type {
            Some(v) => Some(v),
            None => old(model).bunker_type,
        }),
        final(model).exporter_id == (match req.exporter_id {
            Some(v) => Some(v),
            None => old(model).exporter_id,
        }),
        final(model).port_id == (match req.port_id {
            Some(v) => Some(v),
            None => old(model).port_id,
        }),
        final(model).id == old(model).id,
        final(model).status == old(model).status,
        final(model).deleted_at == old(model).deleted_at,
{
    if let Some(v) = &req.document_number {
        model.document_number = v.clone();
    }
    if let Some(v) = &req.date {
        model.date = v.clone();
    }
    if let Some(v) = &req.dispatch_purpose {
        model.dispatch_purpose = *v;
    }
    if let Some(v) = &req.dispatch_method {
        model.dispatch_method = *v;
    }
    if let Some(v) = &req.contractor_id {
        model.contractor_id = *v;
    }
    if let Some(v) = &req.destination_base_id {
        model.destination_base_id = Some(*v);
    }
    if let Some(v) = &req.receiver_entity {
        model.receiver_entity = Some(v.clone());
    }
    if let Some(v) = &req.start_cargo_ops {
        model.start_cargo_ops = Some(v.clone());
    }
    if let Some(v) = &req.end_cargo_ops {
        model.end_cargo_ops = Some(v.clone());
    }
    if let Some(v) = &req.bunker_type {
        model.bunker_type = Some(v.clone());
    }
    if let Some(v) = &req.exporter_id {
        model.exporter_id = Some(*v);
    }
    if let Some(v) = &req.port_id {
        model.port_id = Some(*v);
    }
}

/// The fields of a dispatch item that an update may set.
#[derive(Debug, Clone)]
pub struct UpdateDispatchItemRequest {
    pub product_id: Option<u128>,
    pub storage_id: Option<u128>,
    pub dispatched_amount: Option<Quantity>,
}

/// Applies an update request to a dispatch item.
pub fn apply_dispatch_item_update(model: &mut DispatchItem, req: &UpdateDispatchItemRequest)
    ensures
        final(model).product_id == (match req.product_id {
            Some(v) => v,
            None => old(model).product_id,
        }),
        final(model).storage_id == (match req.storage_id {
            Some(v) => v,
            None => old(model).storage_id,
        }),
        final(model).dispatched_amount == (match req.dispatched_amount {
            Some(v) => v,
            None => old(model).dispatched_amount,
        }),
        final(model).id == old(model).id,
        final(model).dispatch_doc_id == old(model).dispatch_doc_id,
{
    if let Some(v) = &req.product_id {
        model.product_id = *v;
    }
    if let Some(v) = &req.storage_id {
        model.storage_id = *v;
    }
    if let Some(v) = &req.dispatched_amount {
        model.dispatched_amount = *v;
    }
}

/// The fields of a dispatch storage measurement that an update may set.
#[derive(Debug, Clone)]
pub struct UpdateDispatchMeasurementRequest {
    pub storage_id: Option<u128>,
    pub before_height: Option<Quantity>,
    pub before_volume: Option<Quantity>,
    pub before_density: Option<Quantity>,
    pub before_mass: Option<Quantity>,
    pub after_height: Option<Quantity>,
    pub after_volume: Option<Quantity>,
    pub after_density: Option<Quantity>,
    pub after_mass: Option<Quantity>,
}

/// Applies an update request to a dispatch storage measurement.
pub fn apply_dispatch_storage_measurement_update(model: &mut DispatchStorageMeasurement, req: &UpdateDispatchMeasurementRequest)
    ensures
        final(model).storage_id == (match req.storage_id {
            Some(v) => v,
            None => old(model).storage_id,
        }),
        final(model).before_height == (match req.before_height {
            Some(v) => Some(v),
            None => old(model).before_height,
        }),
        final(model).before_volume == (match req.before_volume {
            Some(v) => Some(v),
            None => old(model).before_volume,
        }),
        final(model).before_density == (match req.before_density {
            Some(v) => Some(v),
            None => old(model).before_density,
        }),
        final(model).before_mass == (match req.before_mass {
            Some(v) => v,
            None => old(model).before_mass,
        }),
        final(model).after_height == (match req.after_height {
            Some(v) => Some(v),
            None => old(model).after_height,
        }),
        final(model).after_volume == (match req.after_volume {
            Some(v) => Some(v),
            None => old(model).after_volume,
        }),
        final(model).after_density == (match req.after_density {
            Some(v) => Some(v),
            None => old(model).after_density,
        }),
        final(model).after_mass == (match req.after_mass {
            Some(v) => v,
            None => old(model).after_mass,
        }),
        final(model).id == old(model).id,
        final(model).dispatch_doc_id == old(model).dispatch_doc_id,
{
    if let Some(v) = &req.storage_id {
        model.storage_id = *v;
    }
    if let Some(v) = &req.before_height {
        model.before_height = Some(*v);
    }
    if let Some(v) = &req.before_volume {
        model.before_volume = Some(*v);
    }
    if let Some(v) = &req.before_density {
        model.before_density = Some(*v);
    }
    if let Some(v) = &req.before_mass {
        model.before_mass = *v;
    }
    if let Some(v) = &req.after_height {
        model.after_height = Some(*v);
    }
    if let Some(v) = &req.after_volume {
        model.after_volume = Some(*v);
    }
    if let Some(v) = &req.after_density {
        model.after_density = Some(*v);
    }
    if let Some(v) = &req.after_mass {
        model.after_mass = *v;
    }
}

/// The fields of an ownership transfer that an update may set.
#[derive(Debug, Clone)]
pub struct UpdateOwnershipTransferRequest {
    pub date: Option<String>,
}

/// Applies an update request to an ownership transfer.
pub fn apply_ownership_transfer_update(model: &mut OwnershipTransfer, req: &UpdateOwnershipTransferRequest)
    ensures
        final(model).date == (match req.date {
            Some(v) => v,
            None => old(model).date,
        }),
        final(model).id == old(model).id,
        final(model).status == old(model).status,
        final(model).deleted_at == old(model).deleted_at,
{
    if let Some(v) = &req.date {
        model.date = v.clone();
    }
}

/// The fields of an ownership transfer item that an update may set.
#[derive(Debug, Clone)]
pub struct UpdateOwnershipTransferItemRequest {
    pub storage_id: Option<u128>,
    pub product_id: Option<u128>,
    pub from_contractor_id: Option<u128>,
    pub to_contractor_id: Option<u128>,
    pub amount: Option<Quantity>,
}

/// Applies an update request to an ownership transfer item.
pub fn apply_ownership_item_update(model: &mut OwnershipTransferItem, req: &UpdateOwnershipTransferItemRequest)
    ensures
        final(model).storage_id == (match req.storage_id {
            Some(v) => v,
            None => old(model).storage_id,
        }),
        final(model).product_id == (match req.product_id {
            Some(v) => v,
            None => old(model).product_id,
        }),
        final(model).from_contractor_id == (match req.from_contractor_id {
            Some(v) => v,
            None => old(model).from_contractor_id,
        }),
        final(model).to_contractor_id == (match req.to_contractor_id {
            Some(v) => v,
            None => old(model).to_contractor_id,
        }),
        final(model).amount == (match req.amount {
            Some(v) => v,
            None => old(model).amount,
        }),
        final(model).id == old(model).id,
        final(model).ownership_transfer_id == old(model).ownership_transfer_id,
{
    if let Some(v) = &req.storage_id {
        model.storage_id = *v;
    }
    if let Some(v) = &req.product_id {
        model.product_id = *v;
    }
    if let Some(v) = &req.from_contractor_id {
        model.from_contractor_id = *v;
    }
    if let Some(v) = &req.to_contractor_id {
        model.to_contractor_id = *v;
    }
    if let Some(v) = &req.amount {
        model.amount = *v;
    }
}

/// The fields of a physical storage transfer that an update may set.
#[derive(Debug, Clone)]
pub struct UpdatePhysicalTransferRequest {
    pub document_number: Option<String>,
    pub date: Option<String>,
    pub contractor_id: Option<u128>,
    pub start_cargo_ops: Option<String>,
    pub end_cargo_ops: Option<String>,
}

/// Applies an update request to a physical storage transfer.
pub fn apply_physical_transfer_update(model: &mut PhysicalStorageTransfer, req: &UpdatePhysicalTransferRequest)
    ensures
        final(model).document_number == (match req.document_number {
            Some(v) => v,
            None => old(model).document_number,
        }),
        final(model).date == (match req.date {
            Some(v) => v,
            None => old(model).date,
        }),
        final(model).contractor_id == (match req.contractor_id {
            Some(v) => v,
            None => old(model).contractor_id,
        }),
        final(model).start_cargo_ops == (match req.start_cargo_ops {
            Some(v) => v,
            None => old(model).start_cargo_ops,
        }),
        final(model).end_cargo_ops == (match req.end_cargo_ops {
            Some(v) => v,
            None => old(model).end_cargo_ops,
        }),
        final(model).id == old(model).id,
        final(model).status == old(model).status,
        final(model).deleted_at == old(model).deleted_at,
{
    if let Some(v) = &req.document_number {
        model.document_number = v.clone();
    }
    if let Some(v) = &req.date {
        model.date = v.clone();
    }
    if let Some(v) = &req.contractor_id {
        model.contractor_id = *v;
    }
    if let Some(v) = &req.start_cargo_ops {
        model.start_cargo_ops = v.clone();
    }
    if let Some(v) = &req.end_cargo_ops {
        model.end_cargo_ops = v.clone();
    }
}

/// The fields of a physical transfer item that an update may set.
#[derive(Debug, Clone)]
pub struct UpdatePhysicalTransferItemRequest {
    pub product_id: Option<u128>,
    pub from_storage_id: Option<u128>,
    pub to_storage_id: Option<u128>,
    pub amount: Option<Quantity>,
}

/// Applies an update request to a physical transfer item.
pub fn apply_physical_item_update(model: &mut PhysicalTransferItem, req: &UpdatePhysicalTransferItemRequest)
    ensures
        final(model).product_id == (match req.product_id {
            Some(v) => v,
            None => old(model).product_id,
        }),
        final(model).from_storage_id == (match req.from_storage_id {
            Some(v) => v,
            None => old(model).from_storage_id,
        }),
        final(model).to_storage_id == (match req.to_storage_id {
            Some(v) => v,
            None => old(model).to_storage_id,
        }),
        final(model).amount == (match req.amount {
            Some(v) => v,
            None => old(model).amount,
        }),
        final(model).id == old(model).id,
        final(model).physical_transfer_id == old(model).physical_transfer_id,
{
    if let Some(v) = &req.product_id {
        model.product_id = *v;
    }
    if let Some(v) = &req.from_storage_id {
        model.from_storage_id = *v;
    }
    if let Some(v) = &req.to_storage_id {
        model.to_storage_id = *v;
    }
    if let Some(v) = &req.amount {
        model.amount = *v;
    }
}

/// The fields of a rail wagon manifest that an update may set.
#[derive(Debug, Clone)]
pub struct UpdateRailWagonManifestRequest {
    pub wagon_number: Option<String>,
    pub product_id: Option<u128>,
    pub declared_volume: Option<Quantity>,
    pub declared_density: Option<Quantity>,
    pub declared_mass: Option<Quantity>,
}

/// Applies an update request to a rail wagon manifest.
pub fn apply_rail_manifest_update(model: &mut RailWagonManifest, req: &UpdateRailWagonManifestRequest)
    ensures
        final(model).wagon_number == (match req.wagon_number {
            Some(v) => v,
            None => old(model).wagon_number,
        }),
        final(model).product_id == (match req.product_id {
            Some(v) => v,
            None => old(model).product_id,
        }),
        final(model).declared_volume == (match req.declared_volume {
            Some(v) => v,
            None => old(model).declared_volume,
        }),
        final(model).declared_density == (match req.declared_density {
            Some(v) => v,
            None => old(model).declared_density,
        }),
        final(model).declared_mass == (match req.declared_mass {
            Some(v) => v,
            None => old(model).declared_mass,
        }),
        final(model).id == old(model).id,
        final(model).rail_waybill_id == old(model).rail_waybill_id,
        final(model).deleted_at == old(model).deleted_at,
{
    if let Some(v) = &req.wagon_number {
        model.wagon_number = v.clone();
    }
    if let Some(v) = &req.product_id {
        model.product_id = *v;
    }
    if let Some(v) = &req.declared_volume {
        model.declared_volume = *v;
    }
    if let Some(v) = &req.declared_density {
        model.declared_density = *v;
    }
    if let Some(v) = &req.declared_mass {
        model.declared_mass = *v;
    }
}

/// The fields of a rail wagon measurement that an update may set.
#[derive(Debug, Clone)]
pub struct UpdateRailWagonMeasurementRequest {
    pub measured_height: Option<Quantity>,
    pub lab_density: Option<Quantity>,
    pub calculated_mass: Option<Quantity>,
}

/// Applies an update request to a rail wagon measurement.
pub fn apply_rail_measurement_update(model: &mut RailWagonMeasurement, req: &UpdateRailWagonMeasurementRequest)
    ensures
        final(model).measured_height == (match req.measured_height {
            Some(v) => v,
            None => old(model).measured_height,
        }),
        final(model).lab_density == (match req.lab_density {
            Some(v) => Some(v),
            None => old(model).lab_density,
        }),
        final(model).calculated_mass == (match req.calculated_mass {
            Some(v) => v,
            None => old(model).calculated_mass,
        }),
        final(model).id == old(model).id,
        final(model).wagon_manifest_id == old(model).wagon_manifest_id,
{
    if let Some(v) = &req.measured_height {
        model.measured_height = *v;
    }
    if let Some(v) = &req.lab_density {
        model.lab_density = Some(*v);
    }
    if let Some(v) = &req.calculated_mass {
        model.calculated_mass = *v;
    }
}

/// The fields of a rail waybill that an update may set.
#[derive(Debug, Clone)]
pub struct UpdateRailWaybillRequest {
    pub document_number: Option<String>,
    pub date: Option<String>,
    pub sender_id: Option<u128>,
}

/// Applies an update request to a rail waybill.
pub fn apply_rail_waybill_update(model: &mut RailWaybill, req: &UpdateRailWaybillRequest)
    ensures
        final(model).document_number == (match req.document_number {
            Some(v) => v,
            None => old(model).document_number,
        }),
        final(model).date == (match req.date {
            Some(v) => v,
            None => old(model).date,
        }),
        final(model).sender_id == (match req.sender_id {
            Some(v) => v,
            None => old(model).sender_id,
        }),
        final(model).id == old(model).id,
        final(model).deleted_at == old(model).deleted_at,
{
    if let Some(v) = &req.document_number {
        model.document_number = v.clone();
    }
    if let Some(v) = &req.date {
        model.date = v.clone();
    }
    if let Some(v) = &req.sender_id {
        model.sender_id = *v;
    }
}

/// The fields of a rail wagon weight that an update may set.
#[derive(Debug, Clone)]
pub struct UpdateRailWagonWeightRequest {
    pub gross_weight: Option<Quantity>,
    pub tare_weight: Option<Quantity>,
    pub net_product_weight: Option<Quantity>,
}

/// Applies an update request to a rail wagon weight.
pub fn apply_rail_weight_update(model: &mut RailWagonWeight, req: &UpdateRailWagonWeightRequest)
    ensures
        final(model).gross_weight == (match req.gross_weight {
            Some(v) => v,
            None => old(model).gross_weight,
        }),
        final(model).tare_weight == (match req.tare_weight {
            Some(v) => v,
            None => old(model).tare_weight,
        }),
        final(model).net_product_weight == (match req.net_product_weight {
            Some(v) => v,
            None => old(model).net_product_weight,
        }),
        final(model).id == old(model).id,
        final(model).wagon_manifest_id == old(model).wagon_manifest_id,
{
    if let Some(v) = &req.gross_weight {
        model.gross_weight = *v;
    }
    if let Some(v) = &req.tare_weight {
        model.tare_weight = *v;
    }
    if let Some(v) = &req.net_product_weight {
        model.net_product_weight = *v;
    }
}

/// The fields of an inventory adjustment that an update may set.
#[derive(Debug, Clone)]
pub struct UpdateInventoryAdjustmentRequest {
    pub storage_id: Option<u128>,
    pub product_id: Option<u128>,
    pub contractor_id: Option<u128>,
    pub adjustment_type: Option<AdjustmentType>,
    pub amount: Option<Quantity>,
    pub reason: Option<String>,
}

/// Applies an update request to an inventory adjustment.
pub fn apply_adjustment_update(model: &mut InventoryAdjustment, req: &UpdateInventoryAdjustmentRequest)
    ensures
        final(model).storage_id == (match req.storage_id {
            Some(v) => v,
            None => old(model).storage_id,
        }),
        final(model).product_id == (match req.product_id {
            Some(v) => v,
            None => old(model).product_id,
        }),
        final(model).contractor_id == (match req.contractor_id {
            Some(v) => v,
            None => old(model).contractor_id,
        }),
        final(model).adjustment_type == (match req.adjustment_type {
            Some(v) => v,
            None => old(model).adjustment_type,
        }),
        final(model).amount == (match req.amount {
            Some(v) => v,
            None => old(model).amount,
        }),
        final(model).reason == (match req.reason {
            Some(v) => Some(v),
            None => old(model).reason,
        }),
        final(model).id == old(model).id,
        final(model).reconciliation_id == old(model).reconciliation_id,
{
    if let Some(v) = &req.storage_id {
        model.storage_id = *v;
    }
    if let Some(v) = &req.product_id {
        model.product_id = *v;
    }
    if let Some(v) = &req.contractor_id {
        model.contractor_id = *v;
    }
    if let Some(v) = &req.adjustment_type {
        model.adjustment_type = *v;
    }
    if let Some(v) = &req.amount {
        model.amount = *v;
    }
    if let Some(v) = &req.reason {
        model.reason = Some(v.clone());
    }
}

/// The fields of an inventory reconciliation that an update may set.
#[derive(Debug, Clone)]
pub struct UpdateInventoryReconciliationRequest {
    pub document_number: Option<String>,
    pub date: Option<String>,
    pub contractor_id: Option<u128>,
    pub warehouse_id: Option<u128>,
}

/// Applies an update request to an inventory reconciliation.
pub fn apply_reconciliation_update(model: &mut InventoryReconciliation, req: &UpdateInventoryReconciliationRequest)
    ensures
        final(model).document_number == (match req.document_number {
            Some(v) => v,
            None => old(model).document_number,
        }),
        final(model).date == (match req.date {
            Some(v) => v,
            None => old(model).date,
        }),
        final(model).contractor_id == (match req.contractor_id {
            Some(v) => v,
            None => old(model).contractor_id,
        }),
        final(model).warehouse_id == (match req.warehouse_id {
            Some(v) => v,
            None => old(model).warehouse_id,
        }),
        final(model).id == old(model).id,
        final(model).status == old(model).status,
        final(model).deleted_at == old(model).deleted_at,
{
    if let Some(v) = &req.document_number {
        model.document_number = v.clone();
    }
    if let Some(v) = &req.date {
        model.date = v.clone();
    }
    if let Some(v) = &req.contractor_id {
        model.contractor_id = *v;
    }
    if let Some(v) = &req.warehouse_id {
        model.warehouse_id = *v;
    }
}

/// The fields of a truck waybill that an update may set.
#[derive(Debug, Clone)]
pub struct UpdateTruckWaybillRequest {
    pub document_number: Option<String>,
    pub date: Option<String>,
    pub sender_id: Option<u128>,
}

/// Applies an update request to a truck waybill.
pub fn apply_truck_waybill_update(model: &mut TruckWaybill, req: &UpdateTruckWaybillRequest)
    ensures
        final(model).document_number == (match req.document_number {
            Some(v) => v,
            None => old(model).document_number,
        }),
        final(model).date == (match req.date {
            Some(v) => v,
            None => old(model).date,
        }),
        final(model).sender_id == (match req.sender_id {
            Some(v) => v,
            None => old(model).sender_id,
        }),
        final(model).id == old(model).id,
        final(model).deleted_at == old(model).deleted_at,
{
    if let Some(v) = &req.document_number {
        model.document_number = v.clone();
    }
    if let Some(v) = &req.date {
        model.date = v.clone();
    }
    if let Some(v) = &req.sender_id {
        model.sender_id = *v;
    }
}

/// The fields of a truck waybill item that an update may set.
#[derive(Debug, Clone)]
pub struct UpdateTruckWaybillItemRequest {
    pub product_id: Option<u128>,
    pub declared_amount: Option<Quantity>,
}

/// Applies an update request to a truck waybill item.
pub fn apply_truck_waybill_item_update(model: &mut TruckWaybillItem, req: &UpdateTruckWaybillItemRequest)
    ensures
        final(model).product_id == (match req.product_id {
            Some(v) => v,
            None => old(model).product_id,
        }),
        final(model).declared_amount == (match req.declared_amount {
            Some(v) => v,
            None => old(model).declared_amount,
        }),
        final(model).id == old(model).id,
        final(model).truck_waybill_id == old(model).truck_waybill_id,
{
    if let Some(v) = &req.product_id {
        model.product_id = *v;
    }
    if let Some(v) = &req.declared_amount {
        model.declared_amount = *v;
    }
}

/// The fields of a truck weight document that an update may set.
#[derive(Debug, Clone)]
pub struct UpdateTruckWeightDocRequest {
    pub total_weight: Option<Quantity>,
}

/// Applies an update request to a truck weight document.
pub fn apply_truck_weight_doc_update(model: &mut TruckWeightDoc, req: &UpdateTruckWeightDocRequest)
    ensures
        final(model).total_weight == (match req.total_weight {
            Some(v) => v,
            None => old(model).total_weight,
        }),
        final(model).id == old(model).id,
        final(model).truck_waybill_id == old(model).truck_waybill_id,
{
    if let Some(v) = &req.total_weight {
        model.total_weight = *v;
    }
}

} // verus!
