//! Keyset ordering: which rows lie after a cursor, and why paging with it
//! visits every row of a snapshot exactly once, in order.

use vstd::prelude::*;
use vstd::string::*;

use crate::pagination::{
    column_of, comparison_of, effective_field, effective_order, probe_has_more, retained_rows,
    ScoreSortParams, SortOrder,
};

verus! {

/// `lt` is a strict order that is total on its values: irreflexive,
/// transitive, and any two distinct values are comparable.
pub open spec fn strict_total<K>(lt: spec_fn(K, K) -> bool) -> bool {
    &&& forall|a: K| !#[trigger] lt(a, a)
    &&& forall|a: K, b: K, c: K| #[trigger] lt(a, b) && #[trigger] lt(b, c) ==> lt(a, c)
    &&& forall|a: K, b: K| a != b ==> #[trigger] lt(a, b) || #[trigger] lt(b, a)
}

/// Whether the row `(key, id)` lies strictly after the cursor position
/// `(ckey, cid)`: its sort value comes later in the primary direction, or
/// the values are equal and its id is larger. Ids break ties in ascending
/// order whatever the primary direction.
pub open spec fn after_cursor<K>(
    lt: spec_fn(K, K) -> bool,
    order: SortOrder,
    key: K,
    id: int,
    ckey: K,
    cid: int,
) -> bool {
    let later = match order {
        SortOrder::Ascending => lt(ckey, key),
        SortOrder::Descending => lt(key, ckey),
    };
    later || (key == ckey && id > cid)
}

/// Whether row `a` comes before row `b` in the listing order.
pub open spec fn precedes<K>(
    lt: spec_fn(K, K) -> bool,
    order: SortOrder,
    a: (K, int),
    b: (K, int),
) -> bool {
    after_cursor(lt, order, b.0, b.1, a.0, a.1)
}

/// Rows listed in the listing order, each strictly before the next.
pub open spec fn in_listing_order<K>(
    lt: spec_fn(K, K) -> bool,
    order: SortOrder,
    rows: Seq<(K, int)>,
) -> bool {
    forall|i: int, j: int|
        0 <= i < j < rows.len() ==> precedes(lt, order, #[trigger] rows[i], #[trigger] rows[j])
}

/// Whether a row passes the listing's filter for an optional cursor.
pub open spec fn admitted<K>(
    lt: spec_fn(K, K) -> bool,
    order: SortOrder,
    cursor: Option<(K, int)>,
    row: (K, int),
) -> bool {
    match cursor {
        Some(c) => after_cursor(lt, order, row.0, row.1, c.0, c.1),
        None => true,
    }
}

/// The rows of a snapshot that a listing's filter admits, in snapshot order.
pub open spec fn admitted_rows<K>(
    lt: spec_fn(K, K) -> bool,
    order: SortOrder,
    cursor: Option<(K, int)>,
    rows: Seq<(K, int)>,
) -> Seq<(K, int)>
    decreases rows.len(),
{
    if rows.len() == 0 {
        seq![]
    } else {
        let rest = admitted_rows(lt, order, cursor, rows.drop_last());
        if admitted(lt, order, cursor, rows.last()) {
            rest.push(rows.last())
        } else {
            rest
        }
    }
}

/// What the store returns for one page request: the first `limit + 1`
/// admitted rows of the snapshot, in listing order.
pub open spec fn fetched_rows<K>(
    lt: spec_fn(K, K) -> bool,
    order: SortOrder,
    cursor: Option<(K, int)>,
    rows: Seq<(K, int)>,
    limit: nat,
) -> Seq<(K, int)> {
    let a = admitted_rows(lt, order, cursor, rows);
    if a.len() <= limit + 1 {
        a
    } else {
        a.take((limit + 1) as int)
    }
}

/// The rows that `pages` successive page requests return, concatenated:
/// each request after the first carries the cursor of the last row that the
/// previous page kept, as long as that page reported more rows.
pub open spec fn walk_pages<K>(
    lt: spec_fn(K, K) -> bool,
    order: SortOrder,
    rows: Seq<(K, int)>,
    limit: nat,
    cursor: Option<(K, int)>,
    pages: nat,
) -> Seq<(K, int)>
    decreases pages,
{
    if pages == 0 {
        seq![]
    } else {
        let fetched = fetched_rows(lt, order, cursor, rows, limit);
        let page = retained_rows(fetched, limit);
        if probe_has_more(fetched.len(), limit) && page.len() > 0 {
            page + walk_pages(lt, order, rows, limit, Some(page.last()), (pages - 1) as nat)
        } else {
            page
        }
    }
}

proof fn lemma_precedes_asym<K>(lt: spec_fn(K, K) -> bool, order: SortOrder, a: (K, int), b: (K, int))
    requires
        strict_total(lt),
        precedes(lt, order, a, b),
    ensures
        !precedes(lt, order, b, a),
{
    if lt(a.0, b.0) && lt(b.0, a.0) {
        assert(lt(a.0, a.0));
    }
}

/// With the cursor at row `j - 1` (or no cursor and `j == 0`), the admitted
/// rows among the first `m` are those from `j` on.
proof fn lemma_admitted_suffix<K>(
    lt: spec_fn(K, K) -> bool,
    order: SortOrder,
    rows: Seq<(K, int)>,
    j: int,
    m: int,
)
    requires
        strict_total(lt),
        in_listing_order(lt, order, rows),
        0 <= j <= rows.len(),
        0 <= m <= rows.len(),
    ensures
        admitted_rows(lt, order, if j == 0 { None } else { Some(rows[j - 1]) }, rows.take(m))
            == if m <= j { Seq::<(K, int)>::empty() } else { rows.subrange(j, m) },
    decreases m,
{
    let c = if j == 0 { None } else { Some(rows[j - 1]) };
    if m > 0 {
        lemma_admitted_suffix(lt, order, rows, j, m - 1);
        assert(rows.take(m).drop_last() =~= rows.take(m - 1));
        assert(rows.take(m).last() == rows[m - 1]);
        if j > 0 {
            if m - 1 < j - 1 {
                lemma_precedes_asym(lt, order, rows[m - 1], rows[j - 1]);
            } else if m - 1 == j - 1 {
                assert(!lt(rows[j - 1].0, rows[j - 1].0));
            }
        }
        if m > j {
            if m - 1 == j {
                assert(rows.subrange(j, m) =~= seq![rows[m - 1]]);
            } else {
                assert(rows.subrange(j, m) =~= rows.subrange(j, m - 1).push(rows[m - 1]));
            }
        }
    }
}

proof fn lemma_walk_from<K>(
    lt: spec_fn(K, K) -> bool,
    order: SortOrder,
    rows: Seq<(K, int)>,
    limit: nat,
    j: int,
    pages: nat,
)
    requires
        strict_total(lt),
        in_listing_order(lt, order, rows),
        limit >= 1,
        0 <= j <= rows.len(),
        pages >= rows.len() - j + 1,
    ensures
        walk_pages(lt, order, rows, limit, if j == 0 { None } else { Some(rows[j - 1]) }, pages)
            == rows.subrange(j, rows.len() as int),
    decreases pages,
{
    let n = rows.len() as int;
    let c = if j == 0 { None } else { Some(rows[j - 1]) };
    lemma_admitted_suffix(lt, order, rows, j, n);
    assert(rows.take(n) =~= rows);
    let a = admitted_rows(lt, order, c, rows);
    let fetched = fetched_rows(lt, order, c, rows, limit);
    let page = retained_rows(fetched, limit);
    if n - j > limit {
        let e = j + limit;
        assert(fetched =~= rows.subrange(j, e + 1));
        assert(page =~= rows.subrange(j, e));
        assert(page.last() == rows[e - 1]);
        lemma_walk_from(lt, order, rows, limit, e, (pages - 1) as nat);
        assert(rows.subrange(j, n) =~= page + rows.subrange(e, n));
    } else {
        if j == n {
            assert(a =~= Seq::<(K, int)>::empty());
        }
        assert(page =~= rows.subrange(j, n));
    }
}

/// Paging through a fixed snapshot listed in a strict total order, with any
/// positive page size, returns every row exactly once and in order: the
/// pages, concatenated, are the snapshot itself.
pub proof fn lemma_pages_cover_snapshot<K>(
    lt: spec_fn(K, K) -> bool,
    order: SortOrder,
    rows: Seq<(K, int)>,
    limit: nat,
)
    requires
        strict_total(lt),
        in_listing_order(lt, order, rows),
        limit >= 1,
    ensures
        walk_pages(lt, order, rows, limit, None, (rows.len() + 1) as nat) == rows,
{
    lemma_walk_from(lt, order, rows, limit, 0, (rows.len() + 1) as nat);
    assert(rows.subrange(0, rows.len() as int) =~= rows);
}

/// Rows that share a sort value are listed by ascending id, whichever the
/// primary direction.
pub proof fn lemma_ties_by_ascending_id<K>(
    lt: spec_fn(K, K) -> bool,
    order: SortOrder,
    key: K,
    a: int,
    b: int,
)
    requires
        strict_total(lt),
    ensures
        precedes(lt, order, (key, a), (key, b)) == (a < b),
{
}

/// The keyset condition of a score listing: rows whose sort column compares
/// past the cursor value (`?2`) in the sort direction, or equals it with a
/// larger id (`?3`). For instance `score_val < ?2 OR (score_val = ?2 AND id > ?3)`.
pub open spec fn keyset_clause_of(p: ScoreSortParams) -> Seq<char> {
    let col = column_of(effective_field(p));
    col + " "@ + comparison_of(effective_order(p)) + " ?2 OR ("@ + col + " = ?2 AND id > ?3)"@
}

impl ScoreSortParams {
    /// The condition that keeps only rows after a cursor. Column and
    /// operator come from the closed sets of sort keys and directions; the
    /// cursor's values are bound as parameters.
    pub fn to_sql_keyset_clause(&self) -> (r: String)
        ensures
            r@ == keyset_clause_of(*self),
    {
        let col = self.get_sort_field().column();
        let op = self.get_sort_order().comparison();
        let mut s = String::from_str(col);
        s.append(" ");
        s.append(op);
        s.append(" ?2 OR (");
        s.append(col);
        s.append(" = ?2 AND id > ?3)");
        s
    }
}

} // verus!
