//! Ordering of the results table.

use vstd::prelude::*;
use crate::domain::{Availability, AvailabilityView, DomainStatus};
use crate::domain::rdap::last_label;
use crate::text::{chars_of, from_index, rfind};
use core::cmp::Ordering;
use vstd::string::StringExecFns;

verus! {

/// Column to sort by.
#[derive(Debug, Clone, Copy, PartialEq, Eq, Structural)]
pub enum SortColumn {
    Domain,
    Availability,
    RegPrice,
    RenewPrice,
}

/// The sort state after a click on the header of `target`: the same column
/// reverses the direction, another column becomes the sort column in
/// ascending order.
pub open spec fn toggled(col: SortColumn, ascending: bool, target: SortColumn) -> (SortColumn, bool) {
    if col == target {
        (col, !ascending)
    } else {
        (target, true)
    }
}

/// Handle a click on the header of `target`.
pub fn toggle_sort(col: &mut SortColumn, ascending: &mut bool, target: SortColumn)
    ensures
        (*final(col), *final(ascending)) == toggled(*old(col), *old(ascending), target),
{
    if *col == target {
        *ascending = !*ascending;
    } else {
        *col = target;
        *ascending = true;
    }
}

/// The arrow after a column header: the direction of the active sort
/// column, a double arrow on the others.
pub open spec fn header_arrow(is_active: bool, ascending: bool) -> Seq<char> {
    if is_active {
        if ascending {
            " ↑"@
        } else {
            " ↓"@
        }
    } else {
        " ↕"@
    }
}

/// The text of a column header: its title and arrow.
pub fn header_label(text: &str, is_active: bool, ascending: bool) -> (r: String)
    ensures
        r@ == text@ + header_arrow(is_active, ascending),
{
    let mut label = String::from_str(text);
    if is_active {
        if ascending {
            label.append(" ↑");
        } else {
            label.append(" ↓");
        }
    } else {
        label.append(" ↕");
    }
    label
}

/// The rank of a status when the table is sorted by status: available
/// first, then pending, unknown, taken and failed checks.
pub open spec fn status_rank(a: AvailabilityView) -> u8 {
    match a {
        AvailabilityView::Available => 0,
        AvailabilityView::Pending => 1,
        AvailabilityView::Unknown => 2,
        AvailabilityView::Taken => 3,
        AvailabilityView::Error(_) => 4,
    }
}

/// The sort key of a status.
pub fn avail_sort_key(a: &Availability) -> (r: u8)
    ensures
        r == status_rank(a@),
{
    match a {
        Availability::Available => 0,
        Availability::Pending => 1,
        Availability::Unknown => 2,
        Availability::Taken => 3,
        Availability::Error(_) => 4,
    }
}

/// Lexicographic order of two texts by their characters (for UTF-8 text
/// the same order as that of their bytes).
pub open spec fn lex_order(a: Seq<char>, b: Seq<char>) -> Ordering
    decreases a.len(),
{
    if a.len() == 0 {
        if b.len() == 0 {
            Ordering::Equal
        } else {
            Ordering::Less
        }
    } else if b.len() == 0 {
        Ordering::Greater
    } else if a[0] < b[0] {
        Ordering::Less
    } else if a[0] > b[0] {
        Ordering::Greater
    } else {
        lex_order(a.drop_first(), b.drop_first())
    }
}

/// The order of the domain column: by TLD (the part after the last '.'),
/// then by the whole domain.
pub open spec fn domain_order(a: Seq<char>, b: Seq<char>) -> Ordering {
    match lex_order(last_label(a), last_label(b)) {
        Ordering::Equal => lex_order(a, b),
        o => o,
    }
}

fn compare_text(a: &[char], b: &[char]) -> (r: Ordering)
    ensures
        r == lex_order(a@, b@),
{
    let mut i: usize = 0;
    assert(a@.skip(0) =~= a@);
    assert(b@.skip(0) =~= b@);
    loop
        invariant
            i <= a@.len(),
            i <= b@.len(),
            lex_order(a@, b@) == lex_order(from_index(a@, i), from_index(b@, i)),
        decreases a@.len() - i,
    {
        if i == a.len() {
            if i == b.len() {
                return Ordering::Equal;
            } else {
                return Ordering::Less;
            }
        }
        if i == b.len() {
            return Ordering::Greater;
        }
        if a[i] < b[i] {
            return Ordering::Less;
        }
        if a[i] > b[i] {
            return Ordering::Greater;
        }
        assert(from_index(a@, i).drop_first() =~= a@.skip(i + 1));
        assert(from_index(b@, i).drop_first() =~= b@.skip(i + 1));
        i = i + 1;
    }
}

fn tld_chars(v: &Vec<char>) -> (r: Vec<char>)
    ensures
        r@ == last_label(v@),
{
    let n = v.len();
    match rfind(v, '.') {
        Some(i) => {
            proof {
                crate::text::lemma_rfind_char_bounds(v@, '.');
            }
            let mut r: Vec<char> = Vec::new();
            let mut j = i + 1;
            while j < v.len()
                invariant
                    i + 1 <= j <= v@.len(),
                    r@ == v@.subrange(i + 1, j as int),
                decreases v@.len() - j,
            {
                r.push(v[j]);
                assert(r@ =~= v@.subrange(i + 1, j + 1));
                j = j + 1;
            }
            r
        },
        None => v.clone(),
    }
}

/// The order of two domains in the domain column.
pub fn compare_domains(a: &str, b: &str) -> (r: Ordering)
    ensures
        r == domain_order(a@, b@),
{
    let va = chars_of(a);
    let vb = chars_of(b);
    let ta = tld_chars(&va);
    let tb = tld_chars(&vb);
    match compare_text(&ta, &tb) {
        Ordering::Equal => compare_text(&va, &vb),
        o => o,
    }
}

/// Whether the table can be ordered by `col` without the prices: the
/// domain and status columns. The price columns order by floating-point
/// prices, which the caller compares.
pub open spec fn orders_without_price(col: SortColumn) -> bool {
    col == SortColumn::Domain || col == SortColumn::Availability
}

/// Two statuses have the same value in the domain or status column `col`.
pub open spec fn same_in_column<P>(col: SortColumn, a: DomainStatus<P>, b: DomainStatus<P>) -> bool {
    if col == SortColumn::Domain {
        a.domain@ == b.domain@
    } else {
        status_rank(a.availability@) == status_rank(b.availability@)
    }
}

/// `a` sorts before `b` in ascending order of the domain or status column
/// `col`.
pub open spec fn less_in_column<P>(col: SortColumn, a: DomainStatus<P>, b: DomainStatus<P>) -> bool {
    if col == SortColumn::Domain {
        domain_order(a.domain@, b.domain@) == Ordering::Less
    } else {
        status_rank(a.availability@) < status_rank(b.availability@)
    }
}

/// Whether row `i` of the results is shown: it exists and, when only
/// available domains are shown, its domain is available.
pub open spec fn row_shown<P>(results: Seq<DomainStatus<P>>, available_only: bool, i: int) -> bool {
    &&& 0 <= i < results.len()
    &&& !available_only || results[i].availability@ is Available
}

/// Row `a` comes before row `b` when the table is sorted by `col`: by the
/// column's order (reversed when descending), and rows with the same value
/// keep the order they have in the results.
pub open spec fn row_before<P>(
    results: Seq<DomainStatus<P>>,
    col: SortColumn,
    ascending: bool,
    a: int,
    b: int,
) -> bool {
    if same_in_column(col, results[a], results[b]) {
        a < b
    } else if ascending {
        less_in_column(col, results[a], results[b])
    } else {
        less_in_column(col, results[b], results[a])
    }
}

/// `rows` lists exactly the shown rows of the results, each once, in the
/// table's order for `col`.
pub open spec fn table_order<P>(
    results: Seq<DomainStatus<P>>,
    col: SortColumn,
    ascending: bool,
    available_only: bool,
    rows: Seq<usize>,
) -> bool {
    &&& forall|k: int| 0 <= k < rows.len() ==> row_shown(results, available_only, #[trigger] rows[k] as int)
    &&& forall|i: int| row_shown(results, available_only, i) ==> exists|k: int| 0 <= k < rows.len() && #[trigger] rows[k] == i
    &&& forall|k: int, l: int| 0 <= k < l < rows.len() ==> row_before(results, col, ascending, #[trigger] rows[k] as int, #[trigger] rows[l] as int)
}

/// The shown rows of the results, in their order.
pub open spec fn shown_in_order<P>(results: Seq<DomainStatus<P>>, available_only: bool, rows: Seq<usize>) -> bool {
    &&& forall|k: int| 0 <= k < rows.len() ==> row_shown(results, available_only, #[trigger] rows[k] as int)
    &&& forall|i: int| row_shown(results, available_only, i) ==> exists|k: int| 0 <= k < rows.len() && #[trigger] rows[k] == i
    &&& forall|k: int, l: int| 0 <= k < l < rows.len() ==> #[trigger] rows[k] < #[trigger] rows[l]
}

/// The domain and status columns order statuses totally: values either
/// agree or one comes first, never both ways, and the order is transitive
/// and respects agreement.
proof fn lemma_column_order<P>(col: SortColumn, a: DomainStatus<P>, b: DomainStatus<P>, c: DomainStatus<P>)
    requires
        orders_without_price(col),
    ensures
        same_in_column(col, a, a),
        same_in_column(col, a, b) ==> same_in_column(col, b, a),
        same_in_column(col, a, b) && same_in_column(col, b, c) ==> same_in_column(col, a, c),
        same_in_column(col, a, b) ==> !less_in_column(col, a, b),
        !same_in_column(col, a, b) ==> (less_in_column(col, a, b) <==> !less_in_column(col, b, a)),
        less_in_column(col, a, b) && less_in_column(col, b, c) ==> less_in_column(col, a, c),
        same_in_column(col, a, b) ==> (less_in_column(col, a, c) <==> less_in_column(col, b, c)),
        same_in_column(col, b, c) ==> (less_in_column(col, a, b) <==> less_in_column(col, a, c)),
{
    if col == SortColumn::Domain {
        law_domain_order_is_total(a.domain@, b.domain@, c.domain@);
        law_domain_order_is_total(b.domain@, a.domain@, c.domain@);
    }
}

/// Two different rows are ordered one way or the other.
proof fn lemma_row_total<P>(results: Seq<DomainStatus<P>>, col: SortColumn, ascending: bool, a: int, b: int)
    requires
        orders_without_price(col),
        0 <= a < results.len(),
        0 <= b < results.len(),
        a != b,
    ensures
        row_before(results, col, ascending, a, b) || row_before(results, col, ascending, b, a),
        !(row_before(results, col, ascending, a, b) && row_before(results, col, ascending, b, a)),
{
    lemma_column_order(col, results[a], results[b], results[b]);
    lemma_column_order(col, results[b], results[a], results[a]);
}

/// Row order is transitive.
proof fn lemma_row_transitive<P>(
    results: Seq<DomainStatus<P>>,
    col: SortColumn,
    ascending: bool,
    a: int,
    b: int,
    c: int,
)
    requires
        orders_without_price(col),
        0 <= a < results.len(),
        0 <= b < results.len(),
        0 <= c < results.len(),
        row_before(results, col, ascending, a, b),
        row_before(results, col, ascending, b, c),
    ensures
        row_before(results, col, ascending, a, c),
{
    let (x, y, z) = (results[a], results[b], results[c]);
    lemma_column_order(col, x, y, z);
    lemma_column_order(col, z, y, x);
    lemma_column_order(col, y, x, z);
    lemma_column_order(col, x, z, y);
    lemma_column_order(col, z, x, y);
    lemma_column_order(col, y, z, x);
}

fn same_value<P>(col: SortColumn, a: &DomainStatus<P>, b: &DomainStatus<P>) -> (r: bool)
    ensures
        r == same_in_column(col, *a, *b),
{
    if col == SortColumn::Domain {
        crate::text::str_eq(a.domain.as_str(), b.domain.as_str())
    } else {
        avail_sort_key(&a.availability) == avail_sort_key(&b.availability)
    }
}

fn less_value<P>(col: SortColumn, a: &DomainStatus<P>, b: &DomainStatus<P>) -> (r: bool)
    ensures
        r == less_in_column(col, *a, *b),
{
    if col == SortColumn::Domain {
        match compare_domains(a.domain.as_str(), b.domain.as_str()) {
            Ordering::Less => true,
            _ => false,
        }
    } else {
        avail_sort_key(&a.availability) < avail_sort_key(&b.availability)
    }
}

fn row_before_exec<P>(results: &Vec<DomainStatus<P>>, col: SortColumn, ascending: bool, a: usize, b: usize) -> (r: bool)
    requires
        a < results@.len(),
        b < results@.len(),
    ensures
        r == row_before(results@, col, ascending, a as int, b as int),
{
    if same_value(col, &results[a], &results[b]) {
        a < b
    } else if ascending {
        less_value(col, &results[a], &results[b])
    } else {
        less_value(col, &results[b], &results[a])
    }
}

fn is_shown<P>(results: &Vec<DomainStatus<P>>, available_only: bool, i: usize) -> (r: bool)
    requires
        i < results@.len(),
    ensures
        r == row_shown(results@, available_only, i as int),
{
    !available_only || results[i].availability.is_available()
}

/// The rows of the results that the table shows (all, or only the available
/// domains), in the order of the results.
pub fn visible_rows<P>(results: &Vec<DomainStatus<P>>, available_only: bool) -> (rows: Vec<usize>)
    ensures
        shown_in_order(results@, available_only, rows@),
{
    let mut rows: Vec<usize> = Vec::new();
    for i in 0..results.len()
        invariant
            forall|k: int| 0 <= k < rows.len() ==> #[trigger] rows@[k] < i && row_shown(results@, available_only, rows@[k] as int),
            forall|j: int| 0 <= j < i && row_shown(results@, available_only, j) ==> exists|k: int| 0 <= k < rows.len() && #[trigger] rows@[k] == j,
            forall|k: int, l: int| 0 <= k < l < rows.len() ==> #[trigger] rows@[k] < #[trigger] rows@[l],
    {
        if is_shown(results, available_only, i) {
            let ghost before = rows@;
            rows.push(i);
            proof {
                assert(rows@[before.len() as int] == i);
                assert forall|j: int| 0 <= j < i + 1 && row_shown(results@, available_only, j) implies exists|k: int| 0 <= k < rows.len() && #[trigger] rows@[k] == j by {
                    if j < i {
                        let k = choose|k: int| 0 <= k < before.len() && #[trigger] before[k] == j;
                        assert(rows@[k] == j);
                    } else {
                        assert(rows@[before.len() as int] == j);
                    }
                }
            }
        }
    }
    rows
}

/// The rows of the table, sorted by the domain or status column `col`:
/// the shown rows, each once, ordered by the column (descending when
/// `ascending` is false), rows with the same value in the order of the
/// results. `None` for the price columns, whose order the caller decides
/// from the prices.
pub fn table_rows<P>(results: &Vec<DomainStatus<P>>, col: SortColumn, ascending: bool, available_only: bool) -> (r: Option<Vec<usize>>)
    ensures
        r is Some <==> orders_without_price(col),
        r matches Some(rows) ==> table_order(results@, col, ascending, available_only, rows@),
{
    if !(col == SortColumn::Domain || col == SortColumn::Availability) {
        return None;
    }
    let mut rows: Vec<usize> = Vec::new();
    for i in 0..results.len()
        invariant
            orders_without_price(col),
            forall|k: int| 0 <= k < rows.len() ==> #[trigger] rows@[k] < i && row_shown(results@, available_only, rows@[k] as int),
            forall|j: int| 0 <= j < i && row_shown(results@, available_only, j) ==> exists|k: int| 0 <= k < rows.len() && #[trigger] rows@[k] == j,
            forall|k: int, l: int| 0 <= k < l < rows.len() ==> row_before(results@, col, ascending, #[trigger] rows@[k] as int, #[trigger] rows@[l] as int),
    {
        if is_shown(results, available_only, i) {
            let mut p: usize = 0;
            loop
                invariant
                    orders_without_price(col),
                    i < results@.len(),
                    p <= rows.len(),
                    forall|k: int| 0 <= k < rows.len() ==> #[trigger] rows@[k] < i && row_shown(results@, available_only, rows@[k] as int),
                    forall|q: int| 0 <= q < p ==> row_before(results@, col, ascending, #[trigger] rows@[q] as int, i as int),
                ensures
                    p <= rows.len(),
                    forall|q: int| 0 <= q < p ==> row_before(results@, col, ascending, #[trigger] rows@[q] as int, i as int),
                    p < rows.len() ==> row_before(results@, col, ascending, i as int, rows@[p as int] as int),
                decreases rows.len() - p,
            {
                if p == rows.len() {
                    break;
                }
                if row_before_exec(results, col, ascending, i, rows[p]) {
                    break;
                }
                proof {
                    lemma_row_total(results@, col, ascending, rows@[p as int] as int, i as int);
                }
                p = p + 1;
            }
            let ghost before = rows@;
            rows.insert(p, i);
            proof {
                before.insert_ensures(p as int, i);
                assert forall|k: int| 0 <= k < rows.len() implies #[trigger] rows@[k] < i + 1 && row_shown(results@, available_only, rows@[k] as int) by {
                    if k > p {
                        assert(rows@[k] == before[k - 1]);
                    }
                }
                assert forall|j: int| 0 <= j < i + 1 && row_shown(results@, available_only, j) implies exists|k: int| 0 <= k < rows.len() && #[trigger] rows@[k] == j by {
                    if j < i {
                        let k = choose|k: int| 0 <= k < before.len() && #[trigger] before[k] == j;
                        if k < p {
                            assert(rows@[k] == j);
                        } else {
                            assert(rows@[k + 1] == j);
                        }
                    } else {
                        assert(rows@[p as int] == j);
                    }
                }
                assert forall|k: int, l: int| 0 <= k < l < rows.len() implies row_before(results@, col, ascending, #[trigger] rows@[k] as int, #[trigger] rows@[l] as int) by {
                    if l < p {
                        assert(rows@[k] == before[k] && rows@[l] == before[l]);
                    } else if l == p {
                        assert(rows@[k] == before[k]);
                    } else if k < p {
                        assert(rows@[k] == before[k] && rows@[l] == before[l - 1]);
                    } else if k == p {
                        assert(rows@[l] == before[l - 1]);
                        if l - 1 > p {
                            assert(row_before(results@, col, ascending, before[p as int] as int, before[l - 1] as int));
                            lemma_row_transitive(results@, col, ascending, i as int, before[p as int] as int, before[l - 1] as int);
                        }
                    } else {
                        assert(rows@[k] == before[k - 1] && rows@[l] == before[l - 1]);
                    }
                }
            }
        }
    }
    Some(rows)
}

/// The text of the status column for a status.
pub open spec fn status_caption(a: AvailabilityView) -> Seq<char> {
    match a {
        AvailabilityView::Available => "✅ Available"@,
        AvailabilityView::Taken => "❌ Taken"@,
        AvailabilityView::Pending => "⏳ Checking"@,
        AvailabilityView::Error(_) => "⚠️ Error"@,
        AvailabilityView::Unknown => "❓ Unknown"@,
    }
}

/// The text shown in the status column.
pub fn status_label(a: &Availability) -> (r: &'static str)
    ensures
        r@ == status_caption(a@),
{
    match a {
        Availability::Available => "✅ Available",
        Availability::Taken => "❌ Taken",
        Availability::Pending => "⏳ Checking",
        Availability::Error(_) => "⚠️ Error",
        Availability::Unknown => "❓ Unknown",
    }
}

/// How a status is written in an export: its name, or for a failed check
/// the error message.
pub open spec fn export_status(a: AvailabilityView) -> Seq<char> {
    match a {
        AvailabilityView::Available => "Available"@,
        AvailabilityView::Taken => "Taken"@,
        AvailabilityView::Pending => "Pending"@,
        AvailabilityView::Unknown => "Unknown"@,
        AvailabilityView::Error(m) => m,
    }
}

/// `s` padded on the right with spaces to at least `width` characters, as
/// the format `{:<width}` writes it.
pub open spec fn pad_right(s: Seq<char>, width: nat) -> Seq<char> {
    if s.len() < width {
        s + Seq::new((width - s.len()) as nat, |_i: int| ' ')
    } else {
        s
    }
}

/// The export line of a status: the domain padded to 25 characters, " | ",
/// the status and a newline.
pub open spec fn export_line<P>(s: DomainStatus<P>) -> Seq<char> {
    pad_right(s.domain@, 25) + " | "@ + export_status(s.availability@) + "\n"@
}

/// The export of the listed rows, one line each, in order.
pub open spec fn export_lines<P>(results: Seq<DomainStatus<P>>, rows: Seq<usize>) -> Seq<char>
    decreases rows.len(),
{
    if rows.len() == 0 {
        Seq::empty()
    } else {
        export_lines(results, rows.drop_last()) + export_line(results[rows.last() as int])
    }
}

fn status_word(a: &Availability) -> (r: &str)
    ensures
        r@ == export_status(a@),
{
    match a {
        Availability::Available => "Available",
        Availability::Taken => "Taken",
        Availability::Pending => "Pending",
        Availability::Unknown => "Unknown",
        Availability::Error(m) => m.as_str(),
    }
}

fn push_padded(out: &mut String, s: &str, width: usize)
    ensures
        final(out)@ == old(out)@ + pad_right(s@, width as nat),
{
    out.append(s);
    let n = chars_of(s).len();
    let mut k = n;
    while k < width
        invariant
            n == s@.len(),
            n <= k,
            k <= width || k == n,
            out@ == old(out)@ + s@ + Seq::new((k - n) as nat, |_i: int| ' '),
        decreases width - k,
    {
        crate::text::push_char(out, ' ');
        assert(Seq::new((k - n) as nat, |_i: int| ' ').push(' ') =~= Seq::new((k + 1 - n) as nat, |_i: int| ' '));
        k = k + 1;
    }
    if n >= width {
        assert(Seq::new((k - n) as nat, |_i: int| ' ') =~= Seq::<char>::empty());
        assert(out@ =~= old(out)@ + s@);
    } else {
        assert(out@ =~= old(out)@ + pad_right(s@, width as nat));
    }
}

/// The text of an export of the listed rows: for each row its domain
/// padded to 25 characters, " | ", its status (or error message) and a
/// newline.
pub fn export_text<P>(results: &Vec<DomainStatus<P>>, rows: &Vec<usize>) -> (r: String)
    requires
        forall|k: int| 0 <= k < rows@.len() ==> #[trigger] rows@[k] < results@.len(),
    ensures
        r@ == export_lines(results@, rows@),
{
    let mut out = String::new();
    for k in 0..rows.len()
        invariant
            forall|k: int| 0 <= k < rows@.len() ==> #[trigger] rows@[k] < results@.len(),
            out@ == export_lines(results@, rows@.take(k as int)),
    {
        assert(rows@.take(k + 1).drop_last() =~= rows@.take(k as int));
        assert(rows@.take(k + 1).last() == rows@[k as int]);
        let s = &results[rows[k]];
        let ghost before = out@;
        push_padded(&mut out, s.domain.as_str(), 25);
        out.append(" | ");
        out.append(status_word(&s.availability));
        out.append("\n");
        assert(out@ =~= before + export_line(*s));
    }
    assert(rows@.take(rows.len() as int) =~= rows@);
    out
}

/// Two lists of rows, each strictly ordered by `row_before` and holding the
/// same rows, are the same list.
proof fn lemma_sorted_rows_unique<P>(
    results: Seq<DomainStatus<P>>,
    col: SortColumn,
    ascending: bool,
    r1: Seq<usize>,
    r2: Seq<usize>,
)
    requires
        orders_without_price(col),
        forall|k: int| 0 <= k < r1.len() ==> #[trigger] r1[k] < results.len(),
        forall|k: int| 0 <= k < r2.len() ==> #[trigger] r2[k] < results.len(),
        forall|v: usize| r1.contains(v) <==> r2.contains(v),
        forall|k: int, l: int| 0 <= k < l < r1.len() ==> row_before(results, col, ascending, #[trigger] r1[k] as int, #[trigger] r1[l] as int),
        forall|k: int, l: int| 0 <= k < l < r2.len() ==> row_before(results, col, ascending, #[trigger] r2[k] as int, #[trigger] r2[l] as int),
    ensures
        r1 == r2,
    decreases r1.len(),
{
    if r1.len() == 0 {
        if r2.len() > 0 {
            assert(r2.contains(r2[0]));
        }
        assert(r1 =~= r2);
    } else {
        let x = r1[0];
        assert(r1.contains(x));
        let m = choose|m: int| 0 <= m < r2.len() && r2[m] == x;
        if m > 0 {
            let y = r2[0];
            assert(r2.contains(y));
            let j = choose|j: int| 0 <= j < r1.len() && r1[j] == y;
            assert(row_before(results, col, ascending, r2[0] as int, r2[m] as int));
            lemma_column_order(col, results[x as int], results[x as int], results[x as int]);
            if j == 0 {
                assert(y == x);
            } else {
                assert(row_before(results, col, ascending, r1[0] as int, r1[j] as int));
                lemma_row_total(results, col, ascending, x as int, y as int);
            }
        }
        assert(r2[0] == x);
        let (t1, t2) = (r1.drop_first(), r2.drop_first());
        assert forall|v: usize| t1.contains(v) implies t2.contains(v) by {
            let k = choose|k: int| 0 <= k < t1.len() && t1[k] == v;
            assert(r1[k + 1] == v);
            assert(r1.contains(v));
            let l = choose|l: int| 0 <= l < r2.len() && r2[l] == v;
            if l == 0 {
                assert(row_before(results, col, ascending, r1[0] as int, r1[k + 1] as int));
                lemma_column_order(col, results[x as int], results[x as int], results[x as int]);
            }
            assert(t2[l - 1] == v);
        }
        assert forall|v: usize| t2.contains(v) implies t1.contains(v) by {
            let k = choose|k: int| 0 <= k < t2.len() && t2[k] == v;
            assert(r2[k + 1] == v);
            assert(r2.contains(v));
            let l = choose|l: int| 0 <= l < r1.len() && r1[l] == v;
            if l == 0 {
                assert(row_before(results, col, ascending, r2[0] as int, r2[k + 1] as int));
                lemma_column_order(col, results[x as int], results[x as int], results[x as int]);
            }
            assert(t1[l - 1] == v);
        }
        assert forall|k: int, l: int| 0 <= k < l < t1.len() implies row_before(results, col, ascending, #[trigger] t1[k] as int, #[trigger] t1[l] as int) by {
            assert(t1[k] == r1[k + 1] && t1[l] == r1[l + 1]);
        }
        assert forall|k: int, l: int| 0 <= k < l < t2.len() implies row_before(results, col, ascending, #[trigger] t2[k] as int, #[trigger] t2[l] as int) by {
            assert(t2[k] == r2[k + 1] && t2[l] == r2[l + 1]);
        }
        lemma_sorted_rows_unique(results, col, ascending, t1, t2);
        assert(r1 =~= r2) by {
            assert forall|k: int| 0 <= k < r1.len() implies r1[k] == r2[k] by {
                if k > 0 {
                    assert(r1[k] == t1[k - 1]);
                    assert(r2[k] == t2[k - 1]);
                }
            }
        }
    }
}

/// The table's order is determined: two lists of rows that both show the
/// results in the order of the domain or status column are the same list.
pub proof fn law_table_order_unique<P>(
    results: Seq<DomainStatus<P>>,
    col: SortColumn,
    ascending: bool,
    available_only: bool,
    r1: Seq<usize>,
    r2: Seq<usize>,
)
    requires
        orders_without_price(col),
        table_order(results, col, ascending, available_only, r1),
        table_order(results, col, ascending, available_only, r2),
    ensures
        r1 == r2,
{
    assert forall|v: usize| r1.contains(v) implies r2.contains(v) by {
        let k = choose|k: int| 0 <= k < r1.len() && r1[k] == v;
        assert(row_shown(results, available_only, r1[k] as int));
        let l = choose|l: int| 0 <= l < r2.len() && #[trigger] r2[l] == v as int;
        assert(r2[l] == v);
    }
    assert forall|v: usize| r2.contains(v) implies r1.contains(v) by {
        let k = choose|k: int| 0 <= k < r2.len() && r2[k] == v;
        assert(row_shown(results, available_only, r2[k] as int));
        let l = choose|l: int| 0 <= l < r1.len() && #[trigger] r1[l] == v as int;
        assert(r1[l] == v);
    }
    assert forall|k: int| 0 <= k < r1.len() implies #[trigger] r1[k] < results.len() by {
        assert(row_shown(results, available_only, r1[k] as int));
    }
    assert forall|k: int| 0 <= k < r2.len() implies #[trigger] r2[k] < results.len() by {
        assert(row_shown(results, available_only, r2[k] as int));
    }
    lemma_sorted_rows_unique(results, col, ascending, r1, r2);
}

/// The domain of the row at position `k` of the table.
pub open spec fn domain_at<P>(results: Seq<DomainStatus<P>>, rows: Seq<usize>, k: int) -> Seq<char> {
    results[rows[k] as int].domain@
}

/// The status rank of the row at position `k` of the table.
pub open spec fn rank_at<P>(results: Seq<DomainStatus<P>>, rows: Seq<usize>, k: int) -> u8 {
    status_rank(results[rows[k] as int].availability@)
}

/// Whether the row at position `k` of the table is available.
pub open spec fn available_at<P>(results: Seq<DomainStatus<P>>, rows: Seq<usize>, k: int) -> bool {
    results[rows[k] as int].availability@ is Available
}

proof fn lemma_table_pair<P>(
    results: Seq<DomainStatus<P>>,
    col: SortColumn,
    ascending: bool,
    available_only: bool,
    rows: Seq<usize>,
    k: int,
    l: int,
)
    requires
        table_order(results, col, ascending, available_only, rows),
        0 <= k < l < rows.len(),
    ensures
        row_before(results, col, ascending, rows[k] as int, rows[l] as int),
        row_shown(results, available_only, rows[k] as int),
        row_shown(results, available_only, rows[l] as int),
{
}

/// A table in the order of the domain or status column is sorted by that
/// column: by TLD and then domain, or by status rank, ascending or
/// descending as asked; rows with the same value keep the order of the
/// results; and with "available only" every row shown is available.
pub proof fn law_table_sorted_by_column<P>(
    results: Seq<DomainStatus<P>>,
    col: SortColumn,
    ascending: bool,
    available_only: bool,
    rows: Seq<usize>,
    k: int,
    l: int,
)
    requires
        orders_without_price(col),
        table_order(results, col, ascending, available_only, rows),
        0 <= k < l < rows.len(),
    ensures
        col == SortColumn::Domain && ascending ==> domain_order(domain_at(results, rows, k), domain_at(results, rows, l)) != Ordering::Greater,
        col == SortColumn::Domain && !ascending ==> domain_order(domain_at(results, rows, k), domain_at(results, rows, l)) != Ordering::Less,
        col == SortColumn::Domain && domain_at(results, rows, k) == domain_at(results, rows, l) ==> rows[k] < rows[l],
        col == SortColumn::Availability && ascending ==> rank_at(results, rows, k) <= rank_at(results, rows, l),
        col == SortColumn::Availability && !ascending ==> rank_at(results, rows, k) >= rank_at(results, rows, l),
        col == SortColumn::Availability && rank_at(results, rows, k) == rank_at(results, rows, l) ==> rows[k] < rows[l],
        available_only ==> available_at(results, rows, k) && available_at(results, rows, l),
{
    let a = domain_at(results, rows, k);
    let b = domain_at(results, rows, l);
    lemma_table_pair(results, col, ascending, available_only, rows, k, l);
    law_domain_order_is_total(a, b, b);
    law_domain_order_is_total(b, a, a);
}

/// Two texts are in the order `Equal` exactly when they are the same.
pub proof fn lemma_lex_equal(a: Seq<char>, b: Seq<char>)
    ensures
        (lex_order(a, b) == Ordering::Equal) <==> a == b,
    decreases a.len(),
{
    if a.len() > 0 && b.len() > 0 && a[0] == b[0] {
        lemma_lex_equal(a.drop_first(), b.drop_first());
        if a.drop_first() == b.drop_first() {
            assert(a =~= b) by {
                assert forall|i: int| 0 <= i < a.len() implies a[i] == b[i] by {
                    if i > 0 {
                        assert(a[i] == a.drop_first()[i - 1]);
                        assert(b[i] == b.drop_first()[i - 1]);
                    }
                }
            }
        }
        if a == b {
            assert(a.drop_first() =~= b.drop_first());
        }
    } else if a.len() > 0 && b.len() > 0 {
        assert(a[0] != b[0]);
    } else if a.len() == 0 && b.len() == 0 {
        assert(a =~= b);
    }
}

/// Swapping the texts swaps `Less` and `Greater`.
pub proof fn lemma_lex_antisymmetric(a: Seq<char>, b: Seq<char>)
    ensures
        (lex_order(a, b) == Ordering::Less) <==> (lex_order(b, a) == Ordering::Greater),
    decreases a.len(),
{
    if a.len() > 0 && b.len() > 0 && a[0] == b[0] {
        lemma_lex_antisymmetric(a.drop_first(), b.drop_first());
    }
}

/// `Less` is transitive.
pub proof fn lemma_lex_transitive(a: Seq<char>, b: Seq<char>, c: Seq<char>)
    requires
        lex_order(a, b) == Ordering::Less,
        lex_order(b, c) == Ordering::Less,
    ensures
        lex_order(a, c) == Ordering::Less,
    decreases a.len(),
{
    if a.len() > 0 && b.len() > 0 && c.len() > 0 && a[0] == b[0] && b[0] == c[0] {
        lemma_lex_transitive(a.drop_first(), b.drop_first(), c.drop_first());
    }
}

/// The domain column's order is a total order: `Equal` only for the same
/// domain, `Less` one way exactly when `Greater` the other way, and `Less`
/// transitive. Sorting by it is therefore well defined.
pub proof fn law_domain_order_is_total(a: Seq<char>, b: Seq<char>, c: Seq<char>)
    ensures
        (domain_order(a, b) == Ordering::Equal) <==> a == b,
        (domain_order(a, b) == Ordering::Less) <==> (domain_order(b, a) == Ordering::Greater),
        domain_order(a, b) == Ordering::Less && domain_order(b, c) == Ordering::Less
            ==> domain_order(a, c) == Ordering::Less,
{
    let (ta, tb, tc) = (last_label(a), last_label(b), last_label(c));
    lemma_lex_equal(ta, tb);
    lemma_lex_equal(tb, tc);
    lemma_lex_equal(ta, tc);
    lemma_lex_equal(a, b);
    lemma_lex_antisymmetric(ta, tb);
    lemma_lex_antisymmetric(tb, ta);
    lemma_lex_antisymmetric(a, b);
    lemma_lex_antisymmetric(b, a);
    lemma_lex_equal(tb, ta);
    if domain_order(a, b) == Ordering::Less && domain_order(b, c) == Ordering::Less {
        if lex_order(ta, tb) == Ordering::Less && lex_order(tb, tc) == Ordering::Less {
            lemma_lex_transitive(ta, tb, tc);
        } else if lex_order(ta, tb) == Ordering::Less {
            assert(tb == tc);
        } else if lex_order(tb, tc) == Ordering::Less {
            assert(ta == tb);
        } else {
            assert(ta == tb && tb == tc);
            lemma_lex_transitive(a, b, c);
        }
    }
}

/// Clicking the header of the column the table is sorted by twice restores
/// the direction; clicking it once reverses it.
pub proof fn law_toggle_same_column(col: SortColumn, ascending: bool)
    ensures
        toggled(col, ascending, col) == (col, !ascending),
        toggled(toggled(col, ascending, col).0, toggled(col, ascending, col).1, col) == (
            col,
            ascending,
        ),
{
}

/// Clicking the header of another column sorts by it in ascending order,
/// whatever the previous direction.
pub proof fn law_toggle_new_column(col: SortColumn, ascending: bool, target: SortColumn)
    requires
        col != target,
    ensures
        toggled(col, ascending, target) == (target, true),
{
}

/// Statuses of different kinds have different ranks, and available
/// domains sort before all others.
pub proof fn law_status_rank_order(a: AvailabilityView, b: AvailabilityView)
    ensures
        a is Available && !(b is Available) ==> status_rank(a) < status_rank(b),
        status_rank(a) == status_rank(b) ==> (a is Available <==> b is Available) && (a is Pending
            <==> b is Pending) && (a is Unknown <==> b is Unknown) && (a is Taken <==> b is Taken)
            && (a is Error <==> b is Error),
{
}

} // verus!
