//! What the flat listings promise: a listing of several documents is the
//! listings of each document one after the other, and each document shows one
//! row per line, in line order, or a single placeholder row without lines.
use vstd::prelude::*;

use crate::enums::AdjustmentType;
use crate::flat_rows::{
    acceptance_doc_rows, acceptance_listing, blending_doc_rows, blending_listing, dash_text, dispatch_doc_rows,
    dispatch_listing, mapped_name_or, name_or, opt_text, ownership_transfer_doc_rows, ownership_transfer_listing,
    physical_transfer_doc_rows, physical_transfer_listing, reconciliation_doc_rows, reconciliation_listing,
    LoadedAcceptance, LoadedBlending, LoadedDispatch, LoadedOwnershipTransfer, LoadedPhysicalTransfer,
    LoadedReconciliation,
};
use crate::quantity::Quantity;

verus! {

/// The flat listing of dispatches of two lists of documents, one after the other,
/// is the listing of the first list followed by that of the second; the listing
/// of one document is that document's rows.
pub proof fn law_dispatch_listing_concat(a: Seq<LoadedDispatch>, b: Seq<LoadedDispatch>)
    ensures
        dispatch_listing(a + b) == dispatch_listing(a) + dispatch_listing(b),
        dispatch_listing(Seq::<LoadedDispatch>::empty()).len() == 0,
        b.len() == 1 ==> dispatch_listing(b) == dispatch_doc_rows(b[0]),
    decreases b.len(),
{
    if b.len() == 0 {
        assert(a + b =~= a);
        assert(dispatch_listing(a) + dispatch_listing(b) =~= dispatch_listing(a));
    } else {
        law_dispatch_listing_concat(a, b.drop_last());
        assert((a + b).drop_last() =~= a + b.drop_last());
        assert((a + b).last() == b.last());
        assert(dispatch_listing(a) + (dispatch_listing(b.drop_last()) + dispatch_doc_rows(b.last())) =~= (dispatch_listing(a)
            + dispatch_listing(b.drop_last())) + dispatch_doc_rows(b.last()));
        if b.len() == 1 {
            assert(b.drop_last() =~= Seq::<LoadedDispatch>::empty());
            assert(Seq::<crate::flat_rows::DispatchFlatRowView>::empty() + dispatch_doc_rows(b[0]) =~= dispatch_doc_rows(b[0]));
        }
    }
}

/// The flat listing of acceptances of two lists of documents, one after the other,
/// is the listing of the first list followed by that of the second; the listing
/// of one document is that document's rows.
pub proof fn law_acceptance_listing_concat(a: Seq<LoadedAcceptance>, b: Seq<LoadedAcceptance>)
    ensures
        acceptance_listing(a + b) == acceptance_listing(a) + acceptance_listing(b),
        acceptance_listing(Seq::<LoadedAcceptance>::empty()).len() == 0,
        b.len() == 1 ==> acceptance_listing(b) == acceptance_doc_rows(b[0]),
    decreases b.len(),
{
    if b.len() == 0 {
        assert(a + b =~= a);
        assert(acceptance_listing(a) + acceptance_listing(b) =~= acceptance_listing(a));
    } else {
        law_acceptance_listing_concat(a, b.drop_last());
        assert((a + b).drop_last() =~= a + b.drop_last());
        assert((a + b).last() == b.last());
        assert(acceptance_listing(a) + (acceptance_listing(b.drop_last()) + acceptance_doc_rows(b.last())) =~= (acceptance_listing(a)
            + acceptance_listing(b.drop_last())) + acceptance_doc_rows(b.last()));
        if b.len() == 1 {
            assert(b.drop_last() =~= Seq::<LoadedAcceptance>::empty());
            assert(Seq::<crate::flat_rows::AcceptanceFlatRowView>::empty() + acceptance_doc_rows(b[0]) =~= acceptance_doc_rows(b[0]));
        }
    }
}

/// The flat listing of reconciliations of two lists of documents, one after the other,
/// is the listing of the first list followed by that of the second; the listing
/// of one document is that document's rows.
pub proof fn law_reconciliation_listing_concat(a: Seq<LoadedReconciliation>, b: Seq<LoadedReconciliation>)
    ensures
        reconciliation_listing(a + b) == reconciliation_listing(a) + reconciliation_listing(b),
        reconciliation_listing(Seq::<LoadedReconciliation>::empty()).len() == 0,
        b.len() == 1 ==> reconciliation_listing(b) == reconciliation_doc_rows(b[0]),
    decreases b.len(),
{
    if b.len() == 0 {
        assert(a + b =~= a);
        assert(reconciliation_listing(a) + reconciliation_listing(b) =~= reconciliation_listing(a));
    } else {
        law_reconciliation_listing_concat(a, b.drop_last());
        assert((a + b).drop_last() =~= a + b.drop_last());
        assert((a + b).last() == b.last());
        assert(reconciliation_listing(a) + (reconciliation_listing(b.drop_last()) + reconciliation_doc_rows(b.last())) =~= (reconciliation_listing(a)
            + reconciliation_listing(b.drop_last())) + reconciliation_doc_rows(b.last()));
        if b.len() == 1 {
            assert(b.drop_last() =~= Seq::<LoadedReconciliation>::empty());
            assert(Seq::<crate::flat_rows::ReconciliationFlatRowView>::empty() + reconciliation_doc_rows(b[0]) =~= reconciliation_doc_rows(b[0]));
        }
    }
}

/// The flat listing of physical transfers of two lists of documents, one after the other,
/// is the listing of the first list followed by that of the second; the listing
/// of one document is that document's rows.
pub proof fn law_physical_transfer_listing_concat(a: Seq<LoadedPhysicalTransfer>, b: Seq<LoadedPhysicalTransfer>, storage_names: Map<u128, String>)
    ensures
        physical_transfer_listing(a + b, storage_names) == physical_transfer_listing(a, storage_names) + physical_transfer_listing(b, storage_names),
        physical_transfer_listing(Seq::<LoadedPhysicalTransfer>::empty(), storage_names).len() == 0,
        b.len() == 1 ==> physical_transfer_listing(b, storage_names) == physical_transfer_doc_rows(b[0], storage_names),
    decreases b.len(),
{
    if b.len() == 0 {
        assert(a + b =~= a);
        assert(physical_transfer_listing(a, storage_names) + physical_transfer_listing(b, storage_names) =~= physical_transfer_listing(a, storage_names));
    } else {
        law_physical_transfer_listing_concat(a, b.drop_last(), storage_names);
        assert((a + b).drop_last() =~= a + b.drop_last());
        assert((a + b).last() == b.last());
        assert(physical_transfer_listing(a, storage_names) + (physical_transfer_listing(b.drop_last(), storage_names) + physical_transfer_doc_rows(b.last(), storage_names)) =~= (physical_transfer_listing(a, storage_names)
            + physical_transfer_listing(b.drop_last(), storage_names)) + physical_transfer_doc_rows(b.last(), storage_names));
        if b.len() == 1 {
            assert(b.drop_last() =~= Seq::<LoadedPhysicalTransfer>::empty());
            assert(Seq::<crate::flat_rows::PhysicalTransferFlatRowView>::empty() + physical_transfer_doc_rows(b[0], storage_names) =~= physical_transfer_doc_rows(b[0], storage_names));
        }
    }
}

/// The flat listing of ownership transfers of two lists of documents, one after the other,
/// is the listing of the first list followed by that of the second; the listing
/// of one document is that document's rows.
pub proof fn law_ownership_transfer_listing_concat(a: Seq<LoadedOwnershipTransfer>, b: Seq<LoadedOwnershipTransfer>, contractor_names: Map<u128, String>)
    ensures
        ownership_transfer_listing(a + b, contractor_names) == ownership_transfer_listing(a, contractor_names) + ownership_transfer_listing(b, contractor_names),
        ownership_transfer_listing(Seq::<LoadedOwnershipTransfer>::empty(), contractor_names).len() == 0,
        b.len() == 1 ==> ownership_transfer_listing(b, contractor_names) == ownership_transfer_doc_rows(b[0], contractor_names),
    decreases b.len(),
{
    if b.len() == 0 {
        assert(a + b =~= a);
        assert(ownership_transfer_listing(a, contractor_names) + ownership_transfer_listing(b, contractor_names) =~= ownership_transfer_listing(a, contractor_names));
    } else {
        law_ownership_transfer_listing_concat(a, b.drop_last(), contractor_names);
        assert((a + b).drop_last() =~= a + b.drop_last());
        assert((a + b).last() == b.last());
        assert(ownership_transfer_listing(a, contractor_names) + (ownership_transfer_listing(b.drop_last(), contractor_names) + ownership_transfer_doc_rows(b.last(), contractor_names)) =~= (ownership_transfer_listing(a, contractor_names)
            + ownership_transfer_listing(b.drop_last(), contractor_names)) + ownership_transfer_doc_rows(b.last(), contractor_names));
        if b.len() == 1 {
            assert(b.drop_last() =~= Seq::<LoadedOwnershipTransfer>::empty());
            assert(Seq::<crate::flat_rows::OwnershipTransferFlatRowView>::empty() + ownership_transfer_doc_rows(b[0], contractor_names) =~= ownership_transfer_doc_rows(b[0], contractor_names));
        }
    }
}

/// The flat listing of blendings of two lists of documents, one after the other,
/// is the listing of the first list followed by that of the second; the listing
/// of one document is that document's rows.
pub proof fn law_blending_listing_concat(a: Seq<LoadedBlending>, b: Seq<LoadedBlending>)
    ensures
        blending_listing(a + b) == blending_listing(a) + blending_listing(b),
        blending_listing(Seq::<LoadedBlending>::empty()).len() == 0,
        b.len() == 1 ==> blending_listing(b) == blending_doc_rows(b[0]),
    decreases b.len(),
{
    if b.len() == 0 {
        assert(a + b =~= a);
        assert(blending_listing(a) + blending_listing(b) =~= blending_listing(a));
    } else {
        law_blending_listing_concat(a, b.drop_last());
        assert((a + b).drop_last() =~= a + b.drop_last());
        assert((a + b).last() == b.last());
        assert(blending_listing(a) + (blending_listing(b.drop_last()) + blending_doc_rows(b.last())) =~= (blending_listing(a)
            + blending_listing(b.drop_last())) + blending_doc_rows(b.last()));
        if b.len() == 1 {
            assert(b.drop_last() =~= Seq::<LoadedBlending>::empty());
            assert(Seq::<crate::flat_rows::BlendingFlatRowView>::empty() + blending_doc_rows(b[0]) =~= blending_doc_rows(b[0]));
        }
    }
}

/// A dispatch shows one row per line, in line order, each with the document's
/// id, number, status, method, purpose and contractor (or an em dash) and the
/// line's id, product, storage and dispatched amount; a dispatch without lines
/// shows one placeholder row: its own id as item id, em dashes for product and
/// storage, and a zero amount.
pub proof fn law_dispatch_document_rows(doc: LoadedDispatch)
    ensures
        dispatch_doc_rows(doc).len() == (if doc.lines@.len() == 0 {
            1
        } else {
            doc.lines@.len()
        }),
        forall|i: int|
            0 <= i < dispatch_doc_rows(doc).len() ==> {
                let r = #[trigger] dispatch_doc_rows(doc)[i];
                &&& r.id == doc.id
                &&& r.document_id == doc.id
                &&& r.document_number == doc.document_number@
                &&& r.status == doc.status
                &&& r.dispatch_method == doc.dispatch_method
                &&& r.dispatch_purpose == doc.dispatch_purpose
                &&& r.contractor_id_name == name_or(doc.contractor_name, dash_text())
            },
        forall|i: int|
            0 <= i < doc.lines@.len() ==> {
                let r = #[trigger] dispatch_doc_rows(doc)[i];
                let l = doc.lines@[i];
                &&& r.item_id == l.id
                &&& r.product_id_name == name_or(l.product_name, Seq::empty())
                &&& r.storage_id_name == name_or(l.storage_name, Seq::empty())
                &&& r.dispatched_amount == l.dispatched_amount
            },
        doc.lines@.len() == 0 ==> {
            let r = dispatch_doc_rows(doc)[0];
            &&& r.item_id == doc.id
            &&& r.product_id_name == dash_text()
            &&& r.storage_id_name == dash_text()
            &&& r.dispatched_amount == Quantity { mantissa: 0, scale: 0 }
        },
{
}

/// An acceptance shows one row per line, in line order, each with the
/// document's id, number, status, source and contractor (or an em dash) and the
/// line's id, product, storage and accepted amount; an acceptance without lines
/// shows one placeholder row: its own id as item id, em dashes for product and
/// storage, and a zero amount.
pub proof fn law_acceptance_document_rows(doc: LoadedAcceptance)
    ensures
        acceptance_doc_rows(doc).len() == (if doc.lines@.len() == 0 {
            1
        } else {
            doc.lines@.len()
        }),
        forall|i: int|
            0 <= i < acceptance_doc_rows(doc).len() ==> {
                let r = #[trigger] acceptance_doc_rows(doc)[i];
                &&& r.id == doc.id
                &&& r.document_id == doc.id
                &&& r.document_number == doc.document_number@
                &&& r.status == doc.status
                &&& r.source_entity == opt_text(doc.source_entity)
                &&& r.contractor_id_name == name_or(doc.contractor_name, dash_text())
            },
        forall|i: int|
            0 <= i < doc.lines@.len() ==> {
                let r = #[trigger] acceptance_doc_rows(doc)[i];
                let l = doc.lines@[i];
                &&& r.item_id == l.id
                &&& r.product_id_name == name_or(l.product_name, Seq::empty())
                &&& r.storage_id_name == name_or(l.storage_name, Seq::empty())
                &&& r.accepted_amount == l.accepted_amount
            },
        doc.lines@.len() == 0 ==> {
            let r = acceptance_doc_rows(doc)[0];
            &&& r.item_id == doc.id
            &&& r.product_id_name == dash_text()
            &&& r.storage_id_name == dash_text()
            &&& r.accepted_amount == Quantity { mantissa: 0, scale: 0 }
        },
{
}

/// A reconciliation shows one row per adjustment, in order, each with the
/// document's id, number, status, contractor and warehouse (or em dashes) and
/// the adjustment's id, product, storage, type, amount and reason; one without
/// adjustments shows one placeholder row: its own id as item id, em dashes for
/// product and storage, a surplus of zero and no reason.
pub proof fn law_reconciliation_document_rows(doc: LoadedReconciliation)
    ensures
        reconciliation_doc_rows(doc).len() == (if doc.lines@.len() == 0 {
            1
        } else {
            doc.lines@.len()
        }),
        forall|i: int|
            0 <= i < reconciliation_doc_rows(doc).len() ==> {
                let r = #[trigger] reconciliation_doc_rows(doc)[i];
                &&& r.id == doc.id
                &&& r.document_id == doc.id
                &&& r.document_number == doc.document_number@
                &&& r.status == doc.status
                &&& r.contractor_id_name == name_or(doc.contractor_name, dash_text())
                &&& r.warehouse_id_name == name_or(doc.warehouse_name, dash_text())
            },
        forall|i: int|
            0 <= i < doc.lines@.len() ==> {
                let r = #[trigger] reconciliation_doc_rows(doc)[i];
                let l = doc.lines@[i];
                &&& r.item_id == l.id
                &&& r.product_id_name == name_or(l.product_name, Seq::empty())
                &&& r.storage_id_name == name_or(l.storage_name, Seq::empty())
                &&& r.adjustment_type == l.adjustment_type
                &&& r.amount == l.amount
                &&& r.reason == opt_text(l.reason)
            },
        doc.lines@.len() == 0 ==> {
            let r = reconciliation_doc_rows(doc)[0];
            &&& r.item_id == doc.id
            &&& r.product_id_name == dash_text()
            &&& r.storage_id_name == dash_text()
            &&& r.adjustment_type == AdjustmentType::Surplus
            &&& r.amount == Quantity { mantissa: 0, scale: 0 }
            &&& r.reason is None
        },
{
}

/// A physical transfer shows one row per line, in line order, each with the
/// document's id, number, status and contractor (or an em dash) and the line's
/// id, product, source storage, destination storage (named by `storage_names`,
/// else empty) and amount; one without lines shows one placeholder row: its own
/// id as item id, em dashes for product and both storages, and a zero amount.
pub proof fn law_physical_transfer_document_rows(doc: LoadedPhysicalTransfer, storage_names: Map<u128, String>)
    ensures
        physical_transfer_doc_rows(doc, storage_names).len() == (if doc.lines@.len() == 0 {
            1
        } else {
            doc.lines@.len()
        }),
        forall|i: int|
            0 <= i < physical_transfer_doc_rows(doc, storage_names).len() ==> {
                let r = #[trigger] physical_transfer_doc_rows(doc, storage_names)[i];
                &&& r.id == doc.id
                &&& r.document_id == doc.id
                &&& r.document_number == doc.document_number@
                &&& r.status == doc.status
                &&& r.contractor_id_name == name_or(doc.contractor_name, dash_text())
            },
        forall|i: int|
            0 <= i < doc.lines@.len() ==> {
                let r = #[trigger] physical_transfer_doc_rows(doc, storage_names)[i];
                let l = doc.lines@[i];
                &&& r.item_id == l.id
                &&& r.product_id_name == name_or(l.product_name, Seq::empty())
                &&& r.from_storage_id_name == name_or(l.from_storage_name, Seq::empty())
                &&& r.to_storage_id_name == (if storage_names.contains_key(l.to_storage_id) {
                    storage_names[l.to_storage_id]@
                } else {
                    Seq::empty()
                })
                &&& r.amount == l.amount
            },
        doc.lines@.len() == 0 ==> {
            let r = physical_transfer_doc_rows(doc, storage_names)[0];
            &&& r.item_id == doc.id
            &&& r.product_id_name == dash_text()
            &&& r.from_storage_id_name == dash_text()
            &&& r.to_storage_id_name == dash_text()
            &&& r.amount == Quantity { mantissa: 0, scale: 0 }
        },
{
}

/// An ownership transfer shows one row per line, in line order, each with the
/// document's id and status and the line's id, product, storage, giving and
/// receiving contractors (named by `contractor_names`, else an em dash) and
/// amount; one without lines shows one placeholder row: its own id as item id,
/// em dashes for product, storage and both contractors, and a zero amount.
pub proof fn law_ownership_transfer_document_rows(doc: LoadedOwnershipTransfer, contractor_names: Map<u128, String>)
    ensures
        ownership_transfer_doc_rows(doc, contractor_names).len() == (if doc.lines@.len() == 0 {
            1
        } else {
            doc.lines@.len()
        }),
        forall|i: int|
            0 <= i < ownership_transfer_doc_rows(doc, contractor_names).len() ==> {
                let r = #[trigger] ownership_transfer_doc_rows(doc, contractor_names)[i];
                &&& r.id == doc.id
                &&& r.document_id == doc.id
                &&& r.status == doc.status
            },
        forall|i: int|
            0 <= i < doc.lines@.len() ==> {
                let r = #[trigger] ownership_transfer_doc_rows(doc, contractor_names)[i];
                let l = doc.lines@[i];
                &&& r.item_id == l.id
                &&& r.product_id_name == name_or(l.product_name, Seq::empty())
                &&& r.storage_id_name == name_or(l.storage_name, Seq::empty())
                &&& r.from_contractor_id_name == (if contractor_names.contains_key(l.from_contractor_id) {
                    contractor_names[l.from_contractor_id]@
                } else {
                    dash_text()
                })
                &&& r.to_contractor_id_name == (if contractor_names.contains_key(l.to_contractor_id) {
                    contractor_names[l.to_contractor_id]@
                } else {
                    dash_text()
                })
                &&& r.amount == l.amount
            },
        doc.lines@.len() == 0 ==> {
            let r = ownership_transfer_doc_rows(doc, contractor_names)[0];
            &&& r.item_id == doc.id
            &&& r.product_id_name == dash_text()
            &&& r.storage_id_name == dash_text()
            &&& r.from_contractor_id_name == dash_text()
            &&& r.to_contractor_id_name == dash_text()
            &&& r.amount == Quantity { mantissa: 0, scale: 0 }
        },
{
}

/// A blending shows its components, in order, then its results, in order: a
/// "component" row with the component's id, product, storage and amount used
/// for each component, and a "result" row with the result's id, the document's
/// target product (or an em dash), the result's storage and amount produced for
/// each result; every row carries the document's id, number, status, contractor
/// and target product. A blending with neither shows one placeholder row: its
/// own id as item id, em dashes for type, product and storage, and a zero
/// amount.
pub proof fn law_blending_document_rows(doc: LoadedBlending)
    ensures
        blending_doc_rows(doc).len() == (if doc.components@.len() == 0 && doc.results@.len() == 0 {
            1
        } else {
            doc.components@.len() + doc.results@.len()
        }),
        forall|i: int|
            0 <= i < blending_doc_rows(doc).len() ==> {
                let r = #[trigger] blending_doc_rows(doc)[i];
                &&& r.id == doc.id
                &&& r.document_id == doc.id
                &&& r.document_number == doc.document_number@
                &&& r.status == doc.status
                &&& r.contractor_id_name == name_or(doc.contractor_name, dash_text())
                &&& r.target_product_id_name == name_or(doc.target_product_name, dash_text())
            },
        forall|i: int|
            0 <= i < doc.components@.len() ==> {
                let r = #[trigger] blending_doc_rows(doc)[i];
                let c = doc.components@[i];
                &&& r.item_id == c.id
                &&& r.item_type == "component"@
                &&& r.product_id_name == name_or(c.product_name, Seq::empty())
                &&& r.storage_id_name == name_or(c.storage_name, Seq::empty())
                &&& r.amount == c.amount_used
            },
        forall|i: int|
            0 <= i < doc.results@.len() ==> {
                let r = #[trigger] blending_doc_rows(doc)[doc.components@.len() + i];
                let x = doc.results@[i];
                &&& r.item_id == x.id
                &&& r.item_type == "result"@
                &&& r.product_id_name == name_or(doc.target_product_name, dash_text())
                &&& r.storage_id_name == name_or(x.storage_name, Seq::empty())
                &&& r.amount == x.produced_amount
            },
        doc.components@.len() == 0 && doc.results@.len() == 0 ==> {
            let r = blending_doc_rows(doc)[0];
            &&& r.item_id == doc.id
            &&& r.item_type == dash_text()
            &&& r.product_id_name == dash_text()
            &&& r.storage_id_name == dash_text()
            &&& r.amount == Quantity { mantissa: 0, scale: 0 }
        },
{
    let rows = blending_doc_rows(doc);
    let n = doc.components@.len();
    assert forall|i: int| 0 <= i < doc.results@.len() implies {
        let r = #[trigger] blending_doc_rows(doc)[n + i];
        let x = doc.results@[i];
        &&& r.item_id == x.id
        &&& r.item_type == "result"@
        &&& r.product_id_name == name_or(doc.target_product_name, dash_text())
        &&& r.storage_id_name == name_or(x.storage_name, Seq::empty())
        &&& r.amount == x.produced_amount
    } by {
        assert(n + doc.results@.len() > 0);
    }
}

} // verus!
