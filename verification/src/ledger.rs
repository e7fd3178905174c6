//! The inventory ledger: entries, balances and the reversal of executed documents.
//!
//! Quantities are decimals (`Quantity`); balances add them with decimal
//! addition, as the store's decimals add.
use vstd::prelude::*;

use crate::enums::{LedgerEntrySourceEvent, LedgerEntrySourceKind};
use crate::quantity::{
    aligned_sum_fits, larger_scale, lemma_exact_step, lemma_max_scale, mantissa_bound, max_scale,
    quantity_add, spec_add, sum_is_exact, value_total, Quantity,
};

verus! {

/// One row of the inventory ledger.
#[derive(Debug, Clone, Copy)]
pub struct LedgerEntry {
    pub id: u128,
    pub storage_id: u128,
    pub product_id: u128,
    pub contractor_id: u128,
    pub quantity_delta: Quantity,
    pub source_kind: LedgerEntrySourceKind,
    pub source_id: u128,
    pub source_event: LedgerEntrySourceEvent,
    pub reverses_entry_id: Option<u128>,
    /// Creation time in nanoseconds since the Unix epoch.
    pub created_at: i128,
}

/// A ledger row to be appended.
#[derive(Debug, Clone, Copy)]
pub struct LedgerDelta {
    pub storage_id: u128,
    pub product_id: u128,
    pub contractor_id: u128,
    pub quantity_delta: Quantity,
    pub source_kind: LedgerEntrySourceKind,
    pub source_id: u128,
    pub source_event: LedgerEntrySourceEvent,
    pub reverses_entry_id: Option<u128>,
}

/// The balance of one (storage, product, contractor) dimension.
#[derive(Debug, Clone, Copy)]
pub struct LedgerBalance {
    /// The most recently created row of the dimension.
    pub latest_row: LedgerEntry,
    /// Sum of all deltas of the dimension.
    pub current_amount: Quantity,
}

/// Every quantity of the rows is a decimal.
pub open spec fn quantities_fit(rows: Seq<LedgerEntry>) -> bool {
    forall|k: int| 0 <= k < rows.len() ==> (#[trigger] rows[k]).quantity_delta.fits()
}

/// The amount of rows as a balance folds it: the first delta, then each later
/// delta added with decimal addition; none for no rows or once an addition
/// overflows.
pub open spec fn running_amount(rows: Seq<LedgerEntry>) -> Option<Quantity>
    decreases rows.len(),
{
    if rows.len() == 0 {
        None
    } else if rows.len() == 1 {
        Some(rows[0].quantity_delta)
    } else {
        match running_amount(rows.drop_last()) {
            Some(a) => spec_add(a, rows.last().quantity_delta),
            None => None,
        }
    }
}

/// Whether the balance of the rows can be formed: there are none, or their
/// decimal sum does not overflow.
pub open spec fn balance_defined(rows: Seq<LedgerEntry>) -> bool {
    rows.len() == 0 || running_amount(rows) is Some
}

/// Index of the first row whose creation time is the greatest.
pub open spec fn latest_index(rows: Seq<LedgerEntry>) -> int
    decreases rows.len(),
{
    if rows.len() <= 1 {
        0
    } else {
        let i = latest_index(rows.drop_last());
        if rows.last().created_at > rows[i].created_at {
            rows.len() - 1
        } else {
            i
        }
    }
}

/// Whether a row belongs to a (storage, product, contractor) dimension.
pub open spec fn in_dimension(row: LedgerEntry, storage_id: u128, product_id: u128, contractor_id: u128) -> bool {
    row.storage_id == storage_id && row.product_id == product_id && row.contractor_id
        == contractor_id
}

/// The rows of one dimension, in their order.
pub open spec fn rows_of_dimension(
    rows: Seq<LedgerEntry>,
    storage_id: u128,
    product_id: u128,
    contractor_id: u128,
) -> Seq<LedgerEntry>
    decreases rows.len(),
{
    if rows.len() == 0 {
        Seq::empty()
    } else {
        let prefix = rows_of_dimension(rows.drop_last(), storage_id, product_id, contractor_id);
        if in_dimension(rows.last(), storage_id, product_id, contractor_id) {
            prefix.push(rows.last())
        } else {
            prefix
        }
    }
}

/// What the balance of `rows` is: none for no rows, else the sum of the deltas and
/// the first row with the greatest creation time.
pub open spec fn balance_matches(rows: Seq<LedgerEntry>, res: Option<LedgerBalance>) -> bool {
    match res {
        None => rows.len() == 0,
        Some(b) => rows.len() > 0 && running_amount(rows) == Some(b.current_amount) && b.latest_row
            == rows[latest_index(rows)],
    }
}

proof fn lemma_latest_index(rows: Seq<LedgerEntry>)
    requires
        rows.len() > 0,
    ensures
        0 <= latest_index(rows) < rows.len(),
        forall|j: int| 0 <= j < rows.len() ==> #[trigger] rows[j].created_at <= rows[latest_index(rows)].created_at,
        forall|j: int| 0 <= j < latest_index(rows) ==> #[trigger] rows[j].created_at < rows[latest_index(rows)].created_at,
    decreases rows.len(),
{
    if rows.len() > 1 {
        let p = rows.drop_last();
        lemma_latest_index(p);
        assert forall|j: int| 0 <= j < p.len() implies #[trigger] p[j] == rows[j] by {}
        let i = latest_index(p);
        let n = rows.len() - 1;
        assert(p[i] == rows[i]);
        assert(rows.last() == rows[n]);
        let li = latest_index(rows);
        assert forall|j: int| 0 <= j < rows.len() implies #[trigger] rows[j].created_at <= rows[li].created_at by {
            if j < n {
                assert(p[j] == rows[j]);
            }
        }
        assert forall|j: int| 0 <= j < li implies #[trigger] rows[j].created_at < rows[li].created_at by {
            if j < n {
                assert(p[j] == rows[j]);
            }
        }
    }
}

/// Adds one row to a running balance: its delta is added with decimal addition,
/// and it becomes the latest row when it was created strictly later.
pub fn add_row_to_balance(balance: &mut LedgerBalance, row: LedgerEntry)
    requires
        old(balance).current_amount.fits(),
        row.quantity_delta.fits(),
        spec_add(old(balance).current_amount, row.quantity_delta) is Some,
    ensures
        Some(final(balance).current_amount) == spec_add(old(balance).current_amount, row.quantity_delta),
        final(balance).current_amount.fits(),
        old(balance).current_amount.scale == row.quantity_delta.scale && -mantissa_bound()
            <= old(balance).current_amount.mantissa + row.quantity_delta.mantissa <= mantissa_bound()
            ==> final(balance).current_amount == (Quantity {
            mantissa: (old(balance).current_amount.mantissa + row.quantity_delta.mantissa) as i128,
            scale: row.quantity_delta.scale,
        }),
        aligned_sum_fits(old(balance).current_amount, row.quantity_delta) ==> final(balance).current_amount.value()
            == old(balance).current_amount.value() + row.quantity_delta.value(),
        spec_add(old(balance).current_amount, row.quantity_delta) is Some ==> final(balance).current_amount.scale
            <= larger_scale(old(balance).current_amount, row.quantity_delta),
        final(balance).latest_row == (if row.created_at > old(balance).latest_row.created_at {
            row
        } else {
            old(balance).latest_row
        }),
{
    match quantity_add(balance.current_amount, row.quantity_delta) {
        Some(sum) => {
            balance.current_amount = sum;
        },
        None => {},
    }
    if row.created_at > balance.latest_row.created_at {
        balance.latest_row = row;
    }
}

/// The amount of the rows as a balance folds it, or none for no rows or an
/// overflow.
pub fn running_total(rows: &Vec<LedgerEntry>) -> (res: Option<Quantity>)
    requires
        quantities_fit(rows@),
    ensures
        res == running_amount(rows@),
        res matches Some(a) ==> a.fits(),
{
    if rows.len() == 0 {
        return None;
    }
    let mut acc: Option<Quantity> = Some(rows[0].quantity_delta);
    assert(rows@.take(1).drop_last() =~= Seq::<LedgerEntry>::empty());
    assert(rows@.take(1)[0] == rows@[0]);
    let mut i: usize = 1;
    while i < rows.len()
        invariant
            1 <= i <= rows.len(),
            quantities_fit(rows@),
            acc == running_amount(rows@.take(i as int)),
            acc matches Some(a) ==> a.fits(),
        decreases rows.len() - i,
    {
        assert(rows@.take(i + 1).drop_last() =~= rows@.take(i as int));
        assert(rows@.take(i + 1).last() == rows@[i as int]);
        assert(rows@[i as int].quantity_delta.fits());
        acc = match acc {
            Some(a) => quantity_add(a, rows[i].quantity_delta),
            None => None,
        };
        i = i + 1;
    }
    assert(rows@.take(rows.len() as int) =~= rows@);
    acc
}

/// The deltas of the rows, in order.
pub open spec fn deltas_of(rows: Seq<LedgerEntry>) -> Seq<Quantity> {
    rows.map_values(|r: LedgerEntry| r.quantity_delta)
}

/// The balance of a sequence of rows: `None` for no rows, else the decimal sum
/// of all deltas and the earliest-listed row among those created last. When the
/// magnitudes of the deltas' mantissas, written at the largest scale, add up
/// within 96 bits, the sum is exact.
pub fn derive_balance(rows: &Vec<LedgerEntry>) -> (res: Option<LedgerBalance>)
    requires
        quantities_fit(rows@),
        balance_defined(rows@),
    ensures
        balance_matches(rows@, res),
        rows@.len() > 0 && sum_is_exact(deltas_of(rows@)) ==> (res matches Some(b) && b.current_amount.value() == value_total(
            deltas_of(rows@),
        )),
        res matches Some(b) ==> forall|j: int|
            0 <= j < rows@.len() ==> rows@[j].created_at <= b.latest_row.created_at,
{
    if rows.len() == 0 {
        return None;
    }
    let mut balance = LedgerBalance { current_amount: rows[0].quantity_delta, latest_row: rows[0] };
    let ghost ds = deltas_of(rows@);
    let ghost exact = sum_is_exact(ds);
    assert(rows@.take(1)[0] == rows@[0]);
    assert(ds[0] == rows@[0].quantity_delta);
    assert(ds.take(1).drop_last() =~= Seq::<Quantity>::empty());
    assert(ds.take(1).last() == ds[0]);
    assert(value_total(Seq::<Quantity>::empty()) == 0);
    assert(value_total(ds.take(1)) == ds[0].value());
    proof {
        assert(crate::quantity::all_fit(ds)) by {
            assert forall|k: int| 0 <= k < ds.len() implies (#[trigger] ds[k]).fits() by {
                assert(ds[k] == rows@[k].quantity_delta);
            }
        }
        lemma_max_scale(ds);
    }
    assert(latest_index(rows@.take(1)) == 0);
    let mut i: usize = 1;
    while i < rows.len()
        invariant
            1 <= i <= rows.len(),
            quantities_fit(rows@),
            balance_defined(rows@),
            running_amount(rows@.take(i as int)) == Some(balance.current_amount),
            balance.current_amount.fits(),
            ds == deltas_of(rows@),
            exact == sum_is_exact(ds),
            crate::quantity::all_fit(ds),
            exact ==> balance.current_amount.value() == value_total(ds.take(i as int))
                && balance.current_amount.scale <= max_scale(ds),
            balance.latest_row == rows@.take(i as int)[latest_index(rows@.take(i as int))],
        decreases rows.len() - i,
    {
        let ghost prefix = rows@.take(i as int);
        let ghost next = rows@.take(i + 1);
        assert(next.drop_last() =~= prefix);
        assert(next.last() == rows@[i as int]);
        assert(rows@[i as int].quantity_delta.fits());
        proof {
            lemma_latest_index(prefix);
            lemma_running_defined_prefix(rows@, i + 1);
            if exact {
                assert(ds[i as int] == rows@[i as int].quantity_delta);
                lemma_exact_step(ds, i as int, balance.current_amount);
            }
        }
        add_row_to_balance(&mut balance, rows[i]);
        i = i + 1;
    }
    assert(rows@.take(rows.len() as int) =~= rows@);
    proof {
        lemma_latest_index(rows@);
        if exact {
            assert(ds.take(ds.len() as int) =~= ds);
        }
    }
    Some(balance)
}

/// Once the decimal sum of the rows is defined, so is that of every prefix.
proof fn lemma_running_defined_prefix(rows: Seq<LedgerEntry>, n: int)
    requires
        1 <= n <= rows.len(),
        running_amount(rows) is Some,
    ensures
        running_amount(rows.take(n)) is Some,
    decreases rows.len() - n,
{
    if n < rows.len() {
        lemma_running_defined_prefix(rows, n + 1);
        assert(rows.take(n + 1).drop_last() =~= rows.take(n));
    } else {
        assert(rows.take(n) =~= rows);
    }
}

/// The balance of a sequence of rows, or none where their decimal sum overflows:
/// `Some(None)` for no rows.
pub fn checked_derive_balance(rows: &Vec<LedgerEntry>) -> (res: Option<Option<LedgerBalance>>)
    requires
        quantities_fit(rows@),
    ensures
        res is None <==> !balance_defined(rows@),
        res matches Some(b) ==> balance_matches(rows@, b),
{
    if rows.len() > 0 {
        match running_total(rows) {
            None => {
                return None;
            },
            Some(_) => {},
        }
    }
    Some(derive_balance(rows))
}

/// The balance of one (storage, product, contractor) dimension of the ledger.
pub fn balance_by_dimensions(
    rows: &Vec<LedgerEntry>,
    storage_id: u128,
    product_id: u128,
    contractor_id: u128,
) -> (res: Option<LedgerBalance>)
    requires
        quantities_fit(rows@),
        balance_defined(rows_of_dimension(rows@, storage_id, product_id, contractor_id)),
    ensures
        balance_matches(rows_of_dimension(rows@, storage_id, product_id, contractor_id), res),
{
    let selected = select_dimension(rows, storage_id, product_id, contractor_id);
    derive_balance(&selected)
}

proof fn lemma_dimension_rows_fit(rows: Seq<LedgerEntry>, storage_id: u128, product_id: u128, contractor_id: u128)
    requires
        quantities_fit(rows),
    ensures
        quantities_fit(rows_of_dimension(rows, storage_id, product_id, contractor_id)),
    decreases rows.len(),
{
    if rows.len() > 0 {
        assert forall|k: int| 0 <= k < rows.drop_last().len() implies (#[trigger] rows.drop_last()[k]).quantity_delta.fits() by {
            assert(rows.drop_last()[k] == rows[k]);
        }
        lemma_dimension_rows_fit(rows.drop_last(), storage_id, product_id, contractor_id);
        assert(rows.last() == rows[rows.len() - 1]);
    }
}

/// The rows of one (storage, product, contractor) dimension, in their order.
pub fn select_dimension(
    rows: &Vec<LedgerEntry>,
    storage_id: u128,
    product_id: u128,
    contractor_id: u128,
) -> (res: Vec<LedgerEntry>)
    requires
        quantities_fit(rows@),
    ensures
        res@ == rows_of_dimension(rows@, storage_id, product_id, contractor_id),
        quantities_fit(res@),
{
    let mut selected: Vec<LedgerEntry> = Vec::new();
    let mut i: usize = 0;
    while i < rows.len()
        invariant
            i <= rows.len(),
            selected@ == rows_of_dimension(rows@.take(i as int), storage_id, product_id, contractor_id),
        decreases rows.len() - i,
    {
        assert(rows@.take(i + 1).drop_last() =~= rows@.take(i as int));
        let row = rows[i];
        if row.storage_id == storage_id && row.product_id == product_id && row.contractor_id
            == contractor_id {
            selected.push(row);
        }
        i = i + 1;
    }
    assert(rows@.take(rows.len() as int) =~= rows@);
    proof {
        lemma_dimension_rows_fit(rows@, storage_id, product_id, contractor_id);
    }
    selected
}

/// The balance of one dimension of the ledger, or none where the decimal sum of
/// its rows overflows: `Some(None)` for a dimension without rows.
pub fn checked_balance_by_dimensions(
    rows: &Vec<LedgerEntry>,
    storage_id: u128,
    product_id: u128,
    contractor_id: u128,
) -> (res: Option<Option<LedgerBalance>>)
    requires
        quantities_fit(rows@),
    ensures
        res is None <==> !balance_defined(rows_of_dimension(rows@, storage_id, product_id, contractor_id)),
        res matches Some(b) ==> balance_matches(rows_of_dimension(rows@, storage_id, product_id, contractor_id), b),
{
    let selected = select_dimension(rows, storage_id, product_id, contractor_id);
    if selected.len() > 0 {
        match running_total(&selected) {
            None => {
                return None;
            },
            Some(_) => {},
        }
    }
    Some(balance_by_dimensions(rows, storage_id, product_id, contractor_id))
}

/// The (storage, product, contractor) dimension of a row.
pub open spec fn dimension_of(row: LedgerEntry) -> (u128, u128, u128) {
    (row.storage_id, row.product_id, row.contractor_id)
}

/// The dimensions of the rows, each once, in the order of their first row.
pub open spec fn dimensions(rows: Seq<LedgerEntry>) -> Seq<(u128, u128, u128)>
    decreases rows.len(),
{
    if rows.len() == 0 {
        Seq::empty()
    } else {
        let d = dimensions(rows.drop_last());
        if d.contains(dimension_of(rows.last())) {
            d
        } else {
            d.push(dimension_of(rows.last()))
        }
    }
}

proof fn lemma_dimensions(rows: Seq<LedgerEntry>)
    ensures
        forall|i: int, j: int|
            0 <= i < j < dimensions(rows).len() ==> dimensions(rows)[i] != dimensions(rows)[j],
        forall|k: int| 0 <= k < rows.len() ==> dimensions(rows).contains(dimension_of(#[trigger] rows[k])),
        forall|k: int|
            0 <= k < dimensions(rows).len() ==> rows_of_dimension(
                rows,
                (#[trigger] dimensions(rows)[k]).0,
                dimensions(rows)[k].1,
                dimensions(rows)[k].2,
            ).len() > 0,
    decreases rows.len(),
{
    if rows.len() > 0 {
        let prev = rows.drop_last();
        lemma_dimensions(prev);
        let d = dimensions(prev);
        let x = dimension_of(rows.last());
        assert forall|k: int| 0 <= k < rows.len() implies dimensions(rows).contains(
            dimension_of(#[trigger] rows[k]),
        ) by {
            if k < rows.len() - 1 {
                assert(rows[k] == prev[k]);
                let w = choose|w: int| 0 <= w < d.len() && d[w] == dimension_of(prev[k]);
                if !d.contains(x) {
                    assert(dimensions(rows)[w] == d[w]);
                }
            } else {
                if !d.contains(x) {
                    assert(dimensions(rows)[d.len() as int] == x);
                }
            }
        }
        assert forall|k: int| 0 <= k < dimensions(rows).len() implies rows_of_dimension(
            rows,
            (#[trigger] dimensions(rows)[k]).0,
            dimensions(rows)[k].1,
            dimensions(rows)[k].2,
        ).len() > 0 by {
            let e = dimensions(rows)[k];
            if k < d.len() {
                assert(e == d[k]);
                assert(rows_of_dimension(prev, d[k].0, d[k].1, d[k].2).len() > 0);
            }
        }
    }
}

/// The dimensions of the rows, each once, in the order of their first row.
pub fn dimensions_of(rows: &Vec<LedgerEntry>) -> (res: Vec<(u128, u128, u128)>)
    ensures
        res@ == dimensions(rows@),
        forall|m: int|
            0 <= m < res@.len() ==> rows_of_dimension(rows@, (#[trigger] res@[m]).0, res@[m].1, res@[m].2).len() > 0,
{
    let mut dims: Vec<(u128, u128, u128)> = Vec::new();
    let mut i: usize = 0;
    while i < rows.len()
        invariant
            i <= rows.len(),
            dims@ == dimensions(rows@.take(i as int)),
        decreases rows.len() - i,
    {
        assert(rows@.take(i + 1).drop_last() =~= rows@.take(i as int));
        let row = rows[i];
        let mut seen = false;
        let mut j: usize = 0;
        while j < dims.len()
            invariant
                j <= dims.len(),
                seen <==> exists|w: int| 0 <= w < j && dims@[w] == dimension_of(row),
            decreases dims.len() - j,
        {
            let (s, p, c) = dims[j];
            if s == row.storage_id && p == row.product_id && c == row.contractor_id {
                seen = true;
            }
            j = j + 1;
        }
        if !seen {
            dims.push((row.storage_id, row.product_id, row.contractor_id));
        }
        i = i + 1;
    }
    assert(rows@.take(rows.len() as int) =~= rows@);
    proof {
        lemma_dimensions(rows@);
    }
    dims
}

/// Whether the balance of every dimension of the rows can be formed.
pub open spec fn dimensions_defined(rows: Seq<LedgerEntry>) -> bool {
    forall|k: int|
        0 <= k < dimensions(rows).len() ==> balance_defined(
            rows_of_dimension(rows, (#[trigger] dimensions(rows)[k]).0, dimensions(rows)[k].1, dimensions(rows)[k].2),
        )
}

/// The balances of the ledger: one for each dimension that has rows, in the
/// order of the dimensions' first rows.
pub fn list_balances(rows: &Vec<LedgerEntry>) -> (res: Vec<LedgerBalance>)
    requires
        quantities_fit(rows@),
        dimensions_defined(rows@),
    ensures
        res@.len() == dimensions(rows@).len(),
        forall|k: int|
            0 <= k < res@.len() ==> balance_matches(
                rows_of_dimension(
                    rows@,
                    (#[trigger] dimensions(rows@)[k]).0,
                    dimensions(rows@)[k].1,
                    dimensions(rows@)[k].2,
                ),
                Some(res@[k]),
            ),
{
    let dims = dimensions_of(rows);
    let mut out: Vec<LedgerBalance> = Vec::new();
    let mut k: usize = 0;
    while k < dims.len()
        invariant
            k <= dims.len(),
            quantities_fit(rows@),
            dimensions_defined(rows@),
            dims@ == dimensions(rows@),
            out@.len() == k,
            forall|m: int|
                0 <= m < dims@.len() ==> rows_of_dimension(
                    rows@,
                    (#[trigger] dims@[m]).0,
                    dims@[m].1,
                    dims@[m].2,
                ).len() > 0,
            forall|m: int|
                0 <= m < k ==> balance_matches(
                    rows_of_dimension(rows@, (#[trigger] dims@[m]).0, dims@[m].1, dims@[m].2),
                    Some(out@[m]),
                ),
        decreases dims.len() - k,
    {
        let (s, p, c) = dims[k];
        assert(rows_of_dimension(rows@, dims@[k as int].0, dims@[k as int].1, dims@[k as int].2).len() > 0);
        assert(balance_defined(rows_of_dimension(rows@, dims@[k as int].0, dims@[k as int].1, dims@[k as int].2)));
        match balance_by_dimensions(rows, s, p, c) {
            Some(b) => {
                out.push(b);
            },
            None => {
                assert(false);
            },
        }
        k = k + 1;
    }
    out
}

/// The balances of the ledger, or none where the decimal sum of some dimension
/// overflows.
pub fn checked_list_balances(rows: &Vec<LedgerEntry>) -> (res: Option<Vec<LedgerBalance>>)
    requires
        quantities_fit(rows@),
    ensures
        res is None <==> !dimensions_defined(rows@),
        res matches Some(v) ==> v@.len() == dimensions(rows@).len() && forall|k: int|
            0 <= k < v@.len() ==> balance_matches(
                rows_of_dimension(
                    rows@,
                    (#[trigger] dimensions(rows@)[k]).0,
                    dimensions(rows@)[k].1,
                    dimensions(rows@)[k].2,
                ),
                Some(v@[k]),
            ),
{
    let dims = dimensions_of(rows);
    let mut k: usize = 0;
    while k < dims.len()
        invariant
            k <= dims.len(),
            quantities_fit(rows@),
            dims@ == dimensions(rows@),
            forall|m: int|
                0 <= m < k ==> balance_defined(
                    rows_of_dimension(rows@, (#[trigger] dims@[m]).0, dims@[m].1, dims@[m].2),
                ),
        decreases dims.len() - k,
    {
        let (s, p, c) = dims[k];
        match checked_balance_by_dimensions(rows, s, p, c) {
            None => {
                assert(!dimensions_defined(rows@)) by {
                    assert(dims@[k as int] == dimensions(rows@)[k as int]);
                }
                return None;
            },
            Some(_) => {},
        }
        k = k + 1;
    }
    assert(dimensions_defined(rows@)) by {
        assert forall|m: int| 0 <= m < dimensions(rows@).len() implies balance_defined(
            rows_of_dimension(rows@, (#[trigger] dimensions(rows@)[m]).0, dimensions(rows@)[m].1, dimensions(rows@)[m].2),
        ) by {
            assert(dims@[m] == dimensions(rows@)[m]);
        }
    }
    Some(list_balances(rows))
}

/// Each dimension of the ledger is listed exactly once: the listed dimensions
/// are distinct, and every row's dimension is among them.
pub proof fn law_each_dimension_listed_once(rows: Seq<LedgerEntry>, i: int, j: int, k: int)
    requires
        0 <= i < j < dimensions(rows).len(),
        0 <= k < rows.len(),
    ensures
        dimensions(rows)[i] != dimensions(rows)[j],
        dimensions(rows).contains(dimension_of(rows[k])),
{
    lemma_dimensions(rows);
}

// ---------------------------------------------------------------------------
// Reversal of executed documents
// ---------------------------------------------------------------------------

/// Whether a row records the execution of the given source document.
pub open spec fn is_execution_of(row: LedgerEntry, kind: LedgerEntrySourceKind, source_id: u128) -> bool {
    row.source_kind == kind && row.source_id == source_id && row.source_event
        == LedgerEntrySourceEvent::Execution
}

/// Whether some row of the ledger reverses the row with the given id.
pub open spec fn has_reversal(ledger: Seq<LedgerEntry>, id: u128) -> bool {
    exists|k: int| 0 <= k < ledger.len() && ledger[k].reverses_entry_id == Some(id)
}

/// The row that cancels `row`.
pub open spec fn reversal_of(row: LedgerEntry) -> LedgerDelta {
    LedgerDelta {
        storage_id: row.storage_id,
        product_id: row.product_id,
        contractor_id: row.contractor_id,
        quantity_delta: row.quantity_delta.spec_negated(),
        source_kind: row.source_kind,
        source_id: row.source_id,
        source_event: LedgerEntrySourceEvent::Reversion,
        reverses_entry_id: Some(row.id),
    }
}

/// Whether `row` is an execution row of the source that is not reversed yet.
pub open spec fn needs_reversal(
    ledger: Seq<LedgerEntry>,
    row: LedgerEntry,
    kind: LedgerEntrySourceKind,
    source_id: u128,
) -> bool {
    is_execution_of(row, kind, source_id) && !has_reversal(ledger, row.id)
}

/// The reversal rows for the execution rows among `rows` that `ledger` does not
/// reverse yet, in the order of `rows`.
pub open spec fn planned_reversals(
    ledger: Seq<LedgerEntry>,
    rows: Seq<LedgerEntry>,
    kind: LedgerEntrySourceKind,
    source_id: u128,
) -> Seq<LedgerDelta>
    decreases rows.len(),
{
    if rows.len() == 0 {
        Seq::empty()
    } else {
        let prefix = planned_reversals(ledger, rows.drop_last(), kind, source_id);
        if needs_reversal(ledger, rows.last(), kind, source_id) {
            prefix.push(reversal_of(rows.last()))
        } else {
            prefix
        }
    }
}

/// The rows that revert a document: one reversal, with the negated quantity, for
/// each of the document's execution rows that is not reversed yet.
pub fn reversal_deltas(ledger: &Vec<LedgerEntry>, kind: LedgerEntrySourceKind, source_id: u128) -> (res: Vec<
    LedgerDelta,
>)
    requires
        quantities_fit(ledger@),
    ensures
        res@ == planned_reversals(ledger@, ledger@, kind, source_id),
{
    let mut res: Vec<LedgerDelta> = Vec::new();
    let mut i: usize = 0;
    while i < ledger.len()
        invariant
            i <= ledger.len(),
            quantities_fit(ledger@),
            res@ == planned_reversals(ledger@, ledger@.take(i as int), kind, source_id),
        decreases ledger.len() - i,
    {
        assert(ledger@.take(i + 1).drop_last() =~= ledger@.take(i as int));
        let row = ledger[i];
        if row.source_kind == kind && row.source_id == source_id && row.source_event
            == LedgerEntrySourceEvent::Execution {
            let mut reversed = false;
            let mut k: usize = 0;
            while k < ledger.len()
                invariant
                    k <= ledger.len(),
                    reversed == exists|m: int| 0 <= m < k && ledger@[m].reverses_entry_id == Some(row.id),
                decreases ledger.len() - k,
            {
                if ledger[k].reverses_entry_id == Some(row.id) {
                    reversed = true;
                }
                k = k + 1;
            }
            if !reversed {
                res.push(
                    LedgerDelta {
                        storage_id: row.storage_id,
                        product_id: row.product_id,
                        contractor_id: row.contractor_id,
                        quantity_delta: row.quantity_delta.negated(),
                        source_kind: row.source_kind,
                        source_id: row.source_id,
                        source_event: LedgerEntrySourceEvent::Reversion,
                        reverses_entry_id: Some(row.id),
                    },
                );
            }
        }
        i = i + 1;
    }
    assert(ledger@.take(ledger.len() as int) =~= ledger@);
    res
}

} // verus!
