//! Errors of the document rules.
use vstd::prelude::*;

verus! {

/// The child collection of a composite request in which an identifier repeats.
#[derive(Debug, Clone, Copy, PartialEq, Eq, Structural)]
pub enum ChildCollection {
    Items,
    Components,
    Results,
    Adjustments,
    Manifests,
    Measurements,
    Weights,
}

/// The kind of parent document whose deletion freezes its child rows.
#[derive(Debug, Clone, Copy, PartialEq, Eq, Structural)]
pub enum ParentKind {
    TruckWaybill,
    RailWaybill,
    WagonManifest,
}

/// Why a document operation is refused. Each variant names the API error class
/// that it is reported as.
#[derive(Debug, Clone, Copy, PartialEq, Eq, Structural)]
pub enum DocumentError {
    /// Bad request: an acceptance document cannot be executed without items.
    AcceptanceWithoutItems,
    /// Validation: a blending document cannot be executed without components.
    BlendingWithoutComponents,
    /// Validation: a blending document cannot be executed without result rows.
    BlendingWithoutResults,
    /// Validation: the components and the results of a blending differ in total.
    BlendingTotalsMismatch,
    /// Validation: a blending component uses the target product as its source.
    ComponentIsTargetProduct,
    /// Conflict: a dispatched amount exceeds the available balance.
    ExceedsAvailableBalance,
    /// Bad request: an identifier occurs twice in one child collection of a request.
    DuplicateId { collection: ChildCollection, id: u128 },
    /// Bad request: the parent document of a child row is deleted.
    ParentDeleted { parent: ParentKind, parent_id: u128 },
}

} // verus!
