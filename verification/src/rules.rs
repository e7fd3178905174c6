//! Rules that documents and their rows must satisfy before they are changed.
use vstd::prelude::*;

use crate::errors::{ChildCollection, DocumentError, ParentKind};
use crate::ledger::LedgerBalance;
use crate::models::DispatchItem;
use crate::quantity::{lemma_value_sign, quantity_less, Quantity};

verus! {

broadcast use vstd::std_specs::hash::group_hash_axioms;

/// A blending component must not use the blending's target product as source.
pub fn ensure_comp_differs_from_target(src: u128, dst: u128) -> (res: Result<(), DocumentError>)
    ensures
        res is Err <==> src == dst,
        res matches Err(e) ==> e == DocumentError::ComponentIsTargetProduct,
{
    if src == dst {
        return Err(DocumentError::ComponentIsTargetProduct);
    }
    Ok(())
}

/// A dispatched amount must not exceed the available balance; a dimension
/// without ledger rows has none. Amounts are compared as decimals.
pub fn ensure_amount_available(dispatched_amount: Quantity, balance: Option<LedgerBalance>) -> (res: Result<
    (),
    DocumentError,
>)
    requires
        dispatched_amount.fits(),
        balance matches Some(b) ==> b.current_amount.fits(),
    ensures
        res is Err <==> dispatched_amount.value() > (match balance {
            Some(b) => b.current_amount.value(),
            None => 0,
        }),
        res matches Err(e) ==> e == DocumentError::ExceedsAvailableBalance,
{
    let current = match balance {
        Some(entry) => entry.current_amount,
        None => Quantity { mantissa: 0, scale: 0 },
    };
    proof {
        lemma_value_sign(Quantity { mantissa: 0, scale: 0 });
    }
    if quantity_less(current, dispatched_amount) {
        return Err(DocumentError::ExceedsAvailableBalance);
    }
    Ok(())
}

/// The storage, product and amount that a dispatch item has after an update:
/// each requested value, or the stored one where none is requested.
pub fn effective_dispatch_line(
    existing: &DispatchItem,
    storage_id: Option<u128>,
    product_id: Option<u128>,
    dispatched_amount: Option<Quantity>,
) -> (res: (u128, u128, Quantity))
    ensures
        res.0 == (match storage_id {
            Some(s) => s,
            None => existing.storage_id,
        }),
        res.1 == (match product_id {
            Some(p) => p,
            None => existing.product_id,
        }),
        res.2 == (match dispatched_amount {
            Some(a) => a,
            None => existing.dispatched_amount,
        }),
{
    (
        storage_id.unwrap_or(existing.storage_id),
        product_id.unwrap_or(existing.product_id),
        dispatched_amount.unwrap_or(existing.dispatched_amount),
    )
}

/// A child row may only change while its parent is not deleted.
pub fn ensure_parent_active(parent: ParentKind, parent_id: u128, parent_deleted_at: &Option<String>) -> (res: Result<
    (),
    DocumentError,
>)
    ensures
        res is Err <==> parent_deleted_at is Some,
        res matches Err(e) ==> e == (DocumentError::ParentDeleted { parent, parent_id }),
{
    match parent_deleted_at {
        Some(_) => Err(DocumentError::ParentDeleted { parent, parent_id }),
        None => Ok(()),
    }
}

// ---------------------------------------------------------------------------
// Repeated ids in composite requests
// ---------------------------------------------------------------------------

/// Whether `Some(x)` occurs among the first `n` entries.
pub open spec fn occurs_before(ids: Seq<Option<u128>>, x: u128, n: int) -> bool {
    exists|i: int| 0 <= i < n && ids[i] == Some(x)
}

/// The first id, in request order, that repeats an earlier one; entries without
/// an id (new rows) never repeat.
pub open spec fn first_repeat(ids: Seq<Option<u128>>) -> Option<u128>
    decreases ids.len(),
{
    if ids.len() == 0 {
        None
    } else {
        match first_repeat(ids.drop_last()) {
            Some(x) => Some(x),
            None => match ids.last() {
                Some(x) => if occurs_before(ids, x, ids.len() - 1) {
                    Some(x)
                } else {
                    None
                },
                None => None,
            },
        }
    }
}

/// The first id of a request's rows that repeats an earlier one.
pub fn first_repeated_id(ids: &Vec<Option<u128>>) -> (res: Option<u128>)
    ensures
        res == first_repeat(ids@),
{
    let mut kept: std::collections::HashSet<u128> = std::collections::HashSet::new();
    let mut i: usize = 0;
    while i < ids.len()
        invariant
            i <= ids.len(),
            first_repeat(ids@.take(i as int)) is None,
            forall|x: u128| kept@.contains(x) <==> occurs_before(ids@, x, i as int),
        decreases ids.len() - i,
    {
        let ghost prefix = ids@.take(i + 1);
        assert(prefix.drop_last() =~= ids@.take(i as int));
        assert(prefix.last() == ids@[i as int]);
        assert forall|x: u128| occurs_before(prefix, x, i as int) <==> occurs_before(ids@, x, i as int) by {
            if occurs_before(prefix, x, i as int) {
                let k = choose|k: int| 0 <= k < i && prefix[k] == Some(x);
                assert(ids@[k] == prefix[k]);
            }
            if occurs_before(ids@, x, i as int) {
                let k = choose|k: int| 0 <= k < i && ids@[k] == Some(x);
                assert(ids@[k] == prefix[k]);
            }
        }
        if let Some(id) = ids[i] {
            if !kept.insert(id) {
                assert(first_repeat(prefix) == Some(id));
                proof {
                    lemma_first_repeat_extends(ids@, i as int + 1);
                }
                return Some(id);
            }
            assert forall|x: u128| kept@.contains(x) <==> occurs_before(ids@, x, i + 1) by {
                if x == id {
                    assert(ids@[i as int] == Some(x));
                }
                if occurs_before(ids@, x, i + 1) {
                    let k = choose|k: int| 0 <= k < i + 1 && ids@[k] == Some(x);
                    if k < i {
                        assert(occurs_before(ids@, x, i as int));
                    }
                }
            }
        } else {
            assert forall|x: u128| kept@.contains(x) <==> occurs_before(ids@, x, i + 1) by {
                if occurs_before(ids@, x, i + 1) {
                    let k = choose|k: int| 0 <= k < i + 1 && ids@[k] == Some(x);
                    if k < i {
                        assert(occurs_before(ids@, x, i as int));
                    }
                }
            }
        }
        i = i + 1;
    }
    assert(ids@.take(ids.len() as int) =~= ids@);
    None
}

/// Once a prefix has a repeat, the whole sequence has the same first repeat.
proof fn lemma_first_repeat_extends(ids: Seq<Option<u128>>, n: int)
    requires
        0 <= n <= ids.len(),
        first_repeat(ids.take(n)) is Some,
    ensures
        first_repeat(ids) == first_repeat(ids.take(n)),
    decreases ids.len() - n,
{
    if n < ids.len() {
        assert(ids.take(n + 1).drop_last() =~= ids.take(n));
        lemma_first_repeat_extends(ids, n + 1);
    } else {
        assert(ids.take(n) =~= ids);
    }
}

/// Refuses a composite request in which a row id repeats within a collection.
pub fn ensure_unique_ids(collection: ChildCollection, ids: &Vec<Option<u128>>) -> (res: Result<(), DocumentError>)
    ensures
        res is Err <==> first_repeat(ids@) is Some,
        res matches Err(e) ==> e == (DocumentError::DuplicateId { collection, id: first_repeat(ids@)->0 }),
{
    match first_repeated_id(ids) {
        Some(id) => Err(DocumentError::DuplicateId { collection, id }),
        None => Ok(()),
    }
}

/// The row ids of one wagon manifest of a rail waybill update.
#[derive(Debug, Clone)]
pub struct ManifestRowIds {
    pub id: Option<u128>,
    pub measurement_ids: Vec<Option<u128>>,
    pub weight_ids: Vec<Option<u128>>,
}

/// The first repeated id of a rail waybill update, checked manifest by manifest:
/// the manifest's own id against earlier manifests, then its measurements, then
/// its weights.
pub open spec fn rail_first_repeat(manifests: Seq<ManifestRowIds>) -> Option<DocumentError>
    decreases manifests.len(),
{
    if manifests.len() == 0 {
        None
    } else {
        match rail_first_repeat(manifests.drop_last()) {
            Some(e) => Some(e),
            None => {
                let ids = Seq::new(manifests.len() as nat, |k: int| manifests[k].id);
                let m = manifests.last();
                match first_repeat(ids) {
                    Some(x) => Some(DocumentError::DuplicateId { collection: ChildCollection::Manifests, id: x }),
                    None => match first_repeat(m.measurement_ids@) {
                        Some(x) => Some(
                            DocumentError::DuplicateId { collection: ChildCollection::Measurements, id: x },
                        ),
                        None => match first_repeat(m.weight_ids@) {
                            Some(x) => Some(DocumentError::DuplicateId { collection: ChildCollection::Weights, id: x }),
                            None => None,
                        },
                    },
                }
            },
        }
    }
}

/// Refuses a rail waybill update in which a manifest id repeats, or a
/// measurement or weight id repeats within one manifest.
pub fn ensure_unique_rail_ids(manifests: &Vec<ManifestRowIds>) -> (res: Result<(), DocumentError>)
    ensures
        res is Err <==> rail_first_repeat(manifests@) is Some,
        res matches Err(e) ==> Some(e) == rail_first_repeat(manifests@),
{
    let mut manifest_ids: Vec<Option<u128>> = Vec::new();
    let mut i: usize = 0;
    while i < manifests.len()
        invariant
            i <= manifests.len(),
            manifest_ids@ == Seq::new(i as nat, |k: int| manifests@[k].id),
            rail_first_repeat(manifests@.take(i as int)) is None,
        decreases manifests.len() - i,
    {
        let ghost prefix = manifests@.take(i + 1);
        assert(prefix.drop_last() =~= manifests@.take(i as int));
        assert(prefix.last() == manifests@[i as int]);
        manifest_ids.push(manifests[i].id);
        assert(manifest_ids@ =~= Seq::new(prefix.len() as nat, |k: int| prefix[k].id));
        let m = &manifests[i];
        if let Some(id) = first_repeated_id(&manifest_ids) {
            proof {
                lemma_rail_first_repeat_extends(manifests@, i + 1);
            }
            return Err(DocumentError::DuplicateId { collection: ChildCollection::Manifests, id });
        }
        if let Some(id) = first_repeated_id(&m.measurement_ids) {
            proof {
                lemma_rail_first_repeat_extends(manifests@, i + 1);
            }
            return Err(DocumentError::DuplicateId { collection: ChildCollection::Measurements, id });
        }
        if let Some(id) = first_repeated_id(&m.weight_ids) {
            proof {
                lemma_rail_first_repeat_extends(manifests@, i + 1);
            }
            return Err(DocumentError::DuplicateId { collection: ChildCollection::Weights, id });
        }
        assert(manifest_ids@ =~= Seq::new((i + 1) as nat, |k: int| manifests@[k].id));
        i = i + 1;
    }
    assert(manifests@.take(manifests.len() as int) =~= manifests@);
    Ok(())
}

proof fn lemma_rail_first_repeat_extends(manifests: Seq<ManifestRowIds>, n: int)
    requires
        0 <= n <= manifests.len(),
        rail_first_repeat(manifests.take(n)) is Some,
    ensures
        rail_first_repeat(manifests) == rail_first_repeat(manifests.take(n)),
    decreases manifests.len() - n,
{
    if n < manifests.len() {
        assert(manifests.take(n + 1).drop_last() =~= manifests.take(n));
        lemma_rail_first_repeat_extends(manifests, n + 1);
    } else {
        assert(manifests.take(n) =~= manifests);
    }
}

/// A request without repeated ids keeps one row per distinct id: no stored row
/// is updated twice by one composite update.
pub proof fn law_unique_request_ids_are_distinct(ids: Seq<Option<u128>>, i: int, j: int)
    requires
        first_repeat(ids) is None,
        0 <= i < j < ids.len(),
        ids[i] is Some,
    ensures
        ids[i] != ids[j],
    decreases ids.len(),
{
    if j < ids.len() - 1 {
        let rest = ids.drop_last();
        assert(rest[i] == ids[i] && rest[j] == ids[j]);
        law_unique_request_ids_are_distinct(rest, i, j);
    } else {
        assert(ids.last() == ids[j]);
        if ids[i] == ids[j] {
            let x = ids[i]->0;
            assert(occurs_before(ids, x, ids.len() - 1));
        }
    }
}

/// The id that a request is refused for is really repeated: it is the id of a
/// row at some position `j`, an earlier row has the same id, and no two rows
/// before `j` share an id.
pub proof fn law_reported_id_is_repeated(ids: Seq<Option<u128>>)
    requires
        first_repeat(ids) is Some,
    ensures
        exists|i: int, j: int|
            #![trigger ids[i], ids.take(j)]
            0 <= i < j < ids.len() && ids[i] == Some(first_repeat(ids)->0) && ids[j] == Some(first_repeat(ids)->0)
                && first_repeat(ids.take(j)) is None,
    decreases ids.len(),
{
    let rest = ids.drop_last();
    if first_repeat(rest) is Some {
        law_reported_id_is_repeated(rest);
        let (i, j) = choose|i: int, j: int|
            #![trigger rest[i], rest.take(j)]
            0 <= i < j < rest.len() && rest[i] == Some(first_repeat(rest)->0) && rest[j] == Some(
                first_repeat(rest)->0,
            ) && first_repeat(rest.take(j)) is None;
        assert(rest.take(j) =~= ids.take(j));
        assert(rest[i] == ids[i] && rest[j] == ids[j]);
    } else {
        let x = ids.last()->0;
        let j = ids.len() - 1;
        let i = choose|i: int| 0 <= i < j && ids[i] == Some(x);
        assert(ids.take(j) =~= rest);
        assert(ids[j] == ids.last());
    }
}

} // verus!
