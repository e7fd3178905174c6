//! The unified cargo flow listing: every line of every inventory document in
//! one list. The store selects and orders the lines; this module holds the
//! search filter, the paging window and the presentation of each line.
use vstd::prelude::*;
use vstd::string::StringExecFns;
use vstd::string::StrSliceExecFns;

use crate::base_ids::{chars_of, trim, trimmed_bounds};
use crate::enums::DocumentStatus;
use crate::flat_rows::opt_text;
use crate::quantity::Quantity;
use crate::sync_helpers::{lemma_uuid_text_shape, uuid_string, uuid_text};

verus! {

// ---------------------------------------------------------------------------
// Outside formatting
// ---------------------------------------------------------------------------

/// The RFC 3339 text of a UTC instant given in nanoseconds since the epoch.
pub uninterp spec fn rfc3339_text(nanos: i64) -> Seq<char>;

/// The lower-case form of a text, as `str::to_lowercase` gives it.
pub uninterp spec fn lowercase_text(s: Seq<char>) -> Seq<char>;

/// Formats an instant with `chrono`: `DateTime::<Utc>::from_timestamp_nanos`
/// then `to_rfc3339`. Which text comes out is not stated; it is named
/// `rfc3339_text`.
#[verifier::external_body]
fn rfc3339_of(nanos: i64) -> (res: String)
    ensures
        res@ == rfc3339_text(nanos),
{
    chrono::DateTime::<chrono::Utc>::from_timestamp_nanos(nanos).to_rfc3339()
}

/// The decimal digit of a value below ten.
pub open spec fn decimal_digit(d: int) -> char
    recommends
        0 <= d < 10,
{
    seq!['0', '1', '2', '3', '4', '5', '6', '7', '8', '9'][d]
}

/// The decimal digits of `v`, most significant first, without leading zeros:
/// none for zero.
pub open spec fn decimal_digits(v: nat) -> Seq<char>
    decreases v,
{
    if v == 0 {
        Seq::empty()
    } else {
        decimal_digits(v / 10).push(decimal_digit((v % 10) as int))
    }
}

/// The digits of `v`, with leading zeros up to `width` digits.
pub open spec fn padded_digits(v: nat, width: nat) -> Seq<char> {
    let d = decimal_digits(v);
    if d.len() < width {
        Seq::new((width - d.len()) as nat, |i: int| '0') + d
    } else {
        d
    }
}

/// The text of the decimal `mantissa / 10^scale`: a minus sign when the mantissa
/// is negative, the whole digits ("0" when there are none), and, when the scale
/// is not zero, a point followed by exactly `scale` fractional digits.
pub open spec fn decimal_text(mantissa: int, scale: nat) -> Seq<char> {
    let magnitude = if mantissa < 0 { -mantissa } else { mantissa };
    let digits = padded_digits(magnitude as nat, scale);
    let whole_len = digits.len() - scale;
    let unsigned = if scale == 0 {
        if digits.len() == 0 {
            seq!['0']
        } else {
            digits
        }
    } else {
        (if whole_len == 0 {
            seq!['0']
        } else {
            digits.take(whole_len)
        }) + seq!['.'] + digits.skip(whole_len)
    };
    if mantissa < 0 {
        seq!['-'] + unsigned
    } else {
        unsigned
    }
}

/// Writes a decimal with `rust_decimal`: `Decimal::from_i128_with_scale` then
/// `to_string`. `from_i128_with_scale` panics on a scale above 28 or a mantissa
/// beyond 96 bits, which `requires` leaves out. The text written is the one
/// `decimal_text` states: the digits of the mantissa's magnitude, padded with
/// zeros to at least `scale` digits, a point before the last `scale` of them (and
/// a zero before a point that would lead), and a minus sign for a negative
/// mantissa.
#[verifier::external_body]
fn decimal_string(q: Quantity) -> (res: String)
    requires
        q.fits(),
    ensures
        res@ == decimal_text(q.mantissa as int, q.scale as nat),
{
    rust_decimal::Decimal::from_i128_with_scale(q.mantissa, q.scale).to_string()
}

/// Lower-cases a text with `str::to_lowercase`. Which text comes out is not
/// stated; it is named `lowercase_text`.
#[verifier::external_body]
fn to_lowercase(s: &str) -> (res: String)
    ensures
        res@ == lowercase_text(s@),
{
    s.to_lowercase()
}

// ---------------------------------------------------------------------------
// Search filter and paging
// ---------------------------------------------------------------------------

/// A text without its leading and trailing white space.
pub fn trim_text(value: &str) -> (res: String)
    ensures
        res@ == trim(value@),
{
    let chars = chars_of(value);
    let (a, b) = trimmed_bounds(&chars, 0, chars.len());
    assert(chars@.subrange(0, chars@.len() as int) =~= value@);
    String::from_str(value.substring_char(a, b))
}

/// The search filter that a request gives: its text trimmed, when any is left.
pub open spec fn spec_search_filter(filter: Option<Seq<char>>) -> Option<Seq<char>> {
    match filter {
        Some(f) => if trim(f).len() > 0 {
            Some(trim(f))
        } else {
            None
        },
        None => None,
    }
}

/// The search filter of a request: the given text without surrounding white
/// space, or none when nothing is left of it.
pub fn search_filter(filter: Option<&str>) -> (res: Option<String>)
    ensures
        opt_text(res) == spec_search_filter(
            match filter {
                Some(f) => Some(f@),
                None => None,
            },
        ),
{
    match filter {
        Some(f) => {
            let t = trim_text(f);
            if t.unicode_len() > 0 {
                Some(t)
            } else {
                None
            }
        },
        None => None,
    }
}

/// The pattern that a search filter matches with: its lower-case form inside
/// `%` wildcards.
pub open spec fn spec_like_pattern(filter: Seq<char>) -> Seq<char> {
    "%"@ + lowercase_text(filter) + "%"@
}

/// The `LIKE` pattern of a search filter.
pub fn like_pattern(filter: &str) -> (res: String)
    ensures
        res@ == spec_like_pattern(filter@),
{
    let mut out = String::from_str("%");
    let lower = to_lowercase(filter);
    out.append(lower.as_str());
    out.append("%");
    out
}

/// The number of lines before a page: pages count from 1.
pub fn page_offset(page: u64, per_page: u64) -> (res: u64)
    requires
        page >= 1,
        (page - 1) * per_page <= u64::MAX,
    ensures
        res == (page - 1) * per_page,
{
    (page - 1) * per_page
}

/// The total that a count query reports, never below zero.
pub fn row_count(total: i64) -> (res: u64)
    ensures
        res == if total > 0 {
            total as int
        } else {
            0
        },
{
    if total > 0 {
        total as u64
    } else {
        0
    }
}

// ---------------------------------------------------------------------------
// Presentation of a line
// ---------------------------------------------------------------------------

/// A line of the cargo flow as the store delivers it.
#[derive(Debug, Clone)]
pub struct CargoFlowLine {
    pub id: u128,
    pub document_id: u128,
    pub document_number: Option<String>,
    pub date_nanos: i64,
    pub flow_type: String,
    pub operation: String,
    pub contractor_name: Option<String>,
    pub ownership_from_contractor_name: Option<String>,
    pub ownership_to_contractor_name: Option<String>,
    pub status: DocumentStatus,
    pub flow_route: String,
    pub product_name: String,
    pub storage_name: String,
    pub quantity: Quantity,
    pub item_type: Option<String>,
}

/// A row of the cargo flow listing.
#[derive(Debug, Clone)]
pub struct CargoFlowFlatRow {
    pub id: u128,
    pub document_id: u128,
    pub document_number: String,
    pub date: String,
    pub flow_type: String,
    pub operation: String,
    pub contractor_name: String,
    pub status: String,
    pub flow_route: String,
    pub product_name: String,
    pub storage_name: String,
    pub quantity: String,
    pub item_type: Option<String>,
}

/// A cargo flow row with its texts as character sequences.
pub struct CargoFlowFlatRowView {
    pub id: u128,
    pub document_id: u128,
    pub document_number: Seq<char>,
    pub date: Seq<char>,
    pub flow_type: Seq<char>,
    pub operation: Seq<char>,
    pub contractor_name: Seq<char>,
    pub status: Seq<char>,
    pub flow_route: Seq<char>,
    pub product_name: Seq<char>,
    pub storage_name: Seq<char>,
    pub quantity: Seq<char>,
    pub item_type: Option<Seq<char>>,
}

impl View for CargoFlowFlatRow {
    type V = CargoFlowFlatRowView;

    open spec fn view(&self) -> CargoFlowFlatRowView {
        CargoFlowFlatRowView {
            id: self.id,
            document_id: self.document_id,
            document_number: self.document_number@,
            date: self.date@,
            flow_type: self.flow_type@,
            operation: self.operation@,
            contractor_name: self.contractor_name@,
            status: self.status@,
            flow_route: self.flow_route@,
            product_name: self.product_name@,
            storage_name: self.storage_name@,
            quantity: self.quantity@,
            item_type: opt_text(self.item_type),
        }
    }
}

/// The name of a document status as the listing shows it.
pub open spec fn status_name(status: DocumentStatus) -> Seq<char> {
    match status {
        DocumentStatus::Draft => "Draft"@,
        DocumentStatus::Executed => "Executed"@,
    }
}

/// The text of an optional name, empty when there is none.
pub open spec fn text_or_empty(name: Option<String>) -> Seq<char> {
    match name {
        Some(n) => n@,
        None => Seq::empty(),
    }
}

/// The contractor shown for a line: its contractor, or else the two parties of
/// an ownership transfer as "from → to".
pub open spec fn shown_contractor(line: CargoFlowLine) -> Seq<char> {
    match line.contractor_name {
        Some(n) => n@,
        None => text_or_empty(line.ownership_from_contractor_name) + " \u{2192} "@ + text_or_empty(
            line.ownership_to_contractor_name,
        ),
    }
}

/// The document number shown for a line: its own, or else "OT-" and the first
/// eight characters of the document's id.
pub open spec fn shown_document_number(line: CargoFlowLine) -> Seq<char> {
    match line.document_number {
        Some(n) => n@,
        None => "OT-"@ + uuid_text(line.document_id).take(8),
    }
}

/// The row that shows a cargo flow line.
pub open spec fn cargo_flow_row_of(line: CargoFlowLine) -> CargoFlowFlatRowView {
    CargoFlowFlatRowView {
        id: line.id,
        document_id: line.document_id,
        document_number: shown_document_number(line),
        date: rfc3339_text(line.date_nanos),
        flow_type: line.flow_type@,
        operation: line.operation@,
        contractor_name: shown_contractor(line),
        status: status_name(line.status),
        flow_route: line.flow_route@,
        product_name: line.product_name@,
        storage_name: line.storage_name@,
        quantity: decimal_text(line.quantity.mantissa as int, line.quantity.scale as nat),
        item_type: opt_text(line.item_type),
    }
}

/// The optional name's text, or the empty text.
fn owned_or_empty(name: &Option<String>) -> (res: String)
    ensures
        res@ == text_or_empty(*name),
{
    match name {
        Some(n) => n.clone(),
        None => String::new(),
    }
}

/// The first eight characters of a UUID's text.
pub fn short_uuid(id: u128) -> (res: String)
    ensures
        res@ == uuid_text(id).take(8),
{
    let full = uuid_string(id);
    proof {
        lemma_uuid_text_shape(id);
    }
    String::from_str(full.as_str().substring_char(0, 8))
}

/// The row that shows a cargo flow line: an ownership transfer, which has no
/// contractor of its own, shows "from → to" and, lacking a number, "OT-" with
/// the start of its id; the date is written in RFC 3339, the status by name and
/// the quantity as decimal text.
pub fn cargo_flow_flat_row(line: &CargoFlowLine) -> (res: CargoFlowFlatRow)
    requires
        line.quantity.fits(),
    ensures
        res@ == cargo_flow_row_of(*line),
{
    let contractor_name = match &line.contractor_name {
        Some(n) => n.clone(),
        None => {
            let mut s = owned_or_empty(&line.ownership_from_contractor_name);
            s.append(" \u{2192} ");
            let to = owned_or_empty(&line.ownership_to_contractor_name);
            s.append(to.as_str());
            s
        },
    };
    let document_number = match &line.document_number {
        Some(n) => n.clone(),
        None => {
            let mut s = String::from_str("OT-");
            let short = short_uuid(line.document_id);
            s.append(short.as_str());
            s
        },
    };
    let status = match line.status {
        DocumentStatus::Draft => String::from_str("Draft"),
        DocumentStatus::Executed => String::from_str("Executed"),
    };
    CargoFlowFlatRow {
        id: line.id,
        document_id: line.document_id,
        document_number,
        date: rfc3339_of(line.date_nanos),
        flow_type: line.flow_type.clone(),
        operation: line.operation.clone(),
        contractor_name,
        status,
        flow_route: line.flow_route.clone(),
        product_name: line.product_name.clone(),
        storage_name: line.storage_name.clone(),
        quantity: decimal_string(line.quantity),
        item_type: line.item_type.clone(),
    }
}

/// A page of the cargo flow listing with the number of lines in all.
#[derive(Debug, Clone)]
pub struct CargoFlowPage {
    pub items: Vec<CargoFlowFlatRow>,
    pub total: u64,
}

/// The views of a sequence of cargo flow rows.
pub open spec fn cargo_flow_row_views(rows: Seq<CargoFlowFlatRow>) -> Seq<CargoFlowFlatRowView> {
    rows.map_values(|r: CargoFlowFlatRow| r@)
}

/// The rows that show the given lines.
pub open spec fn cargo_flow_rows_of(lines: Seq<CargoFlowLine>) -> Seq<CargoFlowFlatRowView> {
    lines.map_values(|l: CargoFlowLine| cargo_flow_row_of(l))
}

/// The page of the cargo flow listing that shows the lines the store delivered
/// for it, with the total that the count query reported.
pub fn cargo_flow_page(lines: &Vec<CargoFlowLine>, total: i64) -> (res: CargoFlowPage)
    requires
        forall|i: int| 0 <= i < lines@.len() ==> (#[trigger] lines@[i]).quantity.fits(),
    ensures
        cargo_flow_row_views(res.items@) == cargo_flow_rows_of(lines@),
        res.total == if total > 0 {
            total as int
        } else {
            0
        },
{
    let mut items: Vec<CargoFlowFlatRow> = Vec::new();
    let mut i: usize = 0;
    while i < lines.len()
        invariant
            i <= lines.len(),
            forall|i: int| 0 <= i < lines@.len() ==> (#[trigger] lines@[i]).quantity.fits(),
            cargo_flow_row_views(items@) == cargo_flow_rows_of(lines@.take(i as int)),
        decreases lines.len() - i,
    {
        let ghost prev = items@;
        let row = cargo_flow_flat_row(&lines[i]);
        items.push(row);
        assert(cargo_flow_row_views(items@) =~= cargo_flow_row_views(prev).push(row@));
        assert(cargo_flow_rows_of(lines@.take(i + 1)) =~= cargo_flow_rows_of(lines@.take(i as int)).push(
            cargo_flow_row_of(lines@[i as int]),
        ));
        i = i + 1;
    }
    assert(lines@.take(lines.len() as int) =~= lines@);
    CargoFlowPage { items, total: row_count(total) }
}

/// Every line of a cargo flow page is shown by one row, in order: the row keeps
/// the line's ids, texts and item type, shows the line's own document number or
/// else "OT-" and the first eight characters of the document id's text, the
/// line's contractor or else the two parties of the ownership transfer as
/// "from → to" (a missing party as the empty text), and the status as "Draft" or
/// "Executed".
pub proof fn law_cargo_flow_rows_show_their_lines(lines: Seq<CargoFlowLine>)
    ensures
        cargo_flow_rows_of(lines).len() == lines.len(),
        forall|i: int|
            0 <= i < lines.len() ==> {
                let r = #[trigger] cargo_flow_rows_of(lines)[i];
                let l = lines[i];
                &&& r.id == l.id
                &&& r.document_id == l.document_id
                &&& r.document_number == (match l.document_number {
                    Some(n) => n@,
                    None => "OT-"@ + uuid_text(l.document_id).take(8),
                })
                &&& r.contractor_name == (match l.contractor_name {
                    Some(n) => n@,
                    None => (match l.ownership_from_contractor_name {
                        Some(n) => n@,
                        None => Seq::empty(),
                    }) + " \u{2192} "@ + (match l.ownership_to_contractor_name {
                        Some(n) => n@,
                        None => Seq::empty(),
                    }),
                })
                &&& r.status == (if l.status == DocumentStatus::Draft {
                    "Draft"@
                } else {
                    "Executed"@
                })
                &&& r.flow_type == l.flow_type@
                &&& r.operation == l.operation@
                &&& r.flow_route == l.flow_route@
                &&& r.product_name == l.product_name@
                &&& r.storage_name == l.storage_name@
                &&& r.item_type == opt_text(l.item_type)
            },
{
}

} // verus!
