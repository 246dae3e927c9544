//! Keyset-aware pagination.  A paginated listing normally selects by a
//! literal offset.  When the previous page is already cached, its last
//! row's sort value and id can serve as an exclusive bound instead, so the
//! store never re-scans the skipped rows.  Because the ordering tie-breaks
//! on the id, it is total and strict, and the shortcut selects exactly the
//! rows the literal offset would: the law at the bottom proves it.

use vstd::prelude::*;

use crate::pages::{lemma_str_lt_irrefl, lemma_str_lt_trans};
use crate::strutil::{str_lt, str_lt_spec};

verus! {

/// One row of a sorted listing as pagination sees it: the sort column's
/// value and the row id used as the tie-break.
#[derive(Debug)]
pub struct PageRow {
    pub sort_value: i64,
    pub id: String,
}

/// The total strict order pagination runs under: by sort value, ties by
/// id.
pub open spec fn row_lt(a: PageRow, b: PageRow) -> bool {
    a.sort_value < b.sort_value || (a.sort_value == b.sort_value && str_lt_spec(a.id@, b.id@))
}

/// Strictly ascending: what `ORDER BY sort_value, id` yields when ids are
/// unique.
pub open spec fn strictly_sorted(rows: Seq<PageRow>) -> bool {
    forall|i: int, j: int| 0 <= i < j < rows.len() ==> row_lt(#[trigger] rows[i], #[trigger] rows[j])
}

/// The page starting at `start`, at most `limit` rows long.
pub open spec fn spec_page(rows: Seq<PageRow>, start: int, limit: int) -> Seq<PageRow> {
    let lo = if 0 <= start <= rows.len() {
        start
    } else if start < 0 {
        0
    } else {
        rows.len() as int
    };
    let rest = rows.skip(lo);
    if limit <= rest.len() {
        rest.take(limit)
    } else {
        rest
    }
}

/// The first position whose row lies strictly above the bound.
pub open spec fn spec_first_gt(rows: Seq<PageRow>, bound: PageRow) -> int
    decreases rows.len(),
{
    if rows.len() == 0 {
        0
    } else if row_lt(bound, rows.first()) {
        0
    } else {
        1 + spec_first_gt(rows.drop_first(), bound)
    }
}

proof fn lemma_first_gt_bounds(rows: Seq<PageRow>, bound: PageRow)
    ensures
        0 <= spec_first_gt(rows, bound) <= rows.len(),
    decreases rows.len(),
{
    if rows.len() > 0 && !row_lt(bound, rows.first()) {
        lemma_first_gt_bounds(rows.drop_first(), bound);
    }
}

proof fn lemma_first_gt_char(rows: Seq<PageRow>, bound: PageRow)
    ensures
        forall|w: int| 0 <= w < spec_first_gt(rows, bound) ==> !row_lt(bound, #[trigger] rows[w]),
        spec_first_gt(rows, bound) < rows.len() ==> row_lt(
            bound,
            rows[spec_first_gt(rows, bound)],
        ),
    decreases rows.len(),
{
    lemma_first_gt_bounds(rows, bound);
    if rows.len() > 0 && !row_lt(bound, rows.first()) {
        lemma_first_gt_char(rows.drop_first(), bound);
        lemma_first_gt_bounds(rows.drop_first(), bound);
        assert forall|w: int| 0 <= w < spec_first_gt(rows, bound) implies !row_lt(
            bound,
            #[trigger] rows[w],
        ) by {
            if w > 0 {
                assert(rows.drop_first()[w - 1] == rows[w]);
            }
        }
        if spec_first_gt(rows, bound) < rows.len() {
            assert(rows.drop_first()[spec_first_gt(rows.drop_first(), bound)] == rows[
                spec_first_gt(rows, bound)]);
        }
    }
}

/// Copies the page `rows[offset .. offset + limit]`, clamped to the end of
/// the listing; the literal-offset semantics.
pub fn page_by_offset(rows: &Vec<PageRow>, offset: usize, limit: usize) -> (r: Vec<PageRow>)
    ensures
        r@ == spec_page(rows@, offset as int, limit as int),
{
    let mut out: Vec<PageRow> = Vec::new();
    let lo = if offset <= rows.len() {
        offset
    } else {
        rows.len()
    };
    let hi = if limit <= rows.len() - lo {
        lo + limit
    } else {
        rows.len()
    };
    let mut i: usize = lo;
    while i < hi
        invariant
            lo <= i <= hi <= rows@.len(),
            out@ =~= rows@.subrange(lo as int, i as int),
        decreases hi - i,
    {
        let row: &PageRow = &rows[i];
        out.push(PageRow { sort_value: row.sort_value, id: row.id.clone() });
        proof {
            assert(rows@[i as int] == (PageRow {
                sort_value: rows@[i as int].sort_value,
                id: rows@[i as int].id,
            }));
            assert(out@ =~= rows@.subrange(lo as int, i + 1));
        }
        i = i + 1;
    }
    proof {
        assert(out@ =~= spec_page(rows@, offset as int, limit as int));
    }
    out
}

/// Selects the page by the keyset shortcut: skip everything at or below
/// the bound, then take at most `limit` rows.
pub fn page_by_keyset(rows: &Vec<PageRow>, bound: &PageRow, limit: usize) -> (r: Vec<PageRow>)
    ensures
        r@ == spec_page(rows@, spec_first_gt(rows@, *bound), limit as int),
{
    let mut start: usize = 0;
    loop
        invariant_except_break
            start <= rows@.len(),
            forall|w: int| 0 <= w < start ==> !row_lt(*bound, #[trigger] rows@[w]),
        ensures
            start <= rows@.len(),
            spec_first_gt(rows@, *bound) == start,
        decreases rows@.len() - start,
    {
        proof {
            lemma_first_gt_char(rows@, *bound);
            lemma_first_gt_bounds(rows@, *bound);
        }
        if start >= rows.len() {
            proof {
                let fg = spec_first_gt(rows@, *bound);
                if fg < start {
                    assert(!row_lt(*bound, rows@[fg]));
                    assert(row_lt(*bound, rows@[fg]));
                }
            }
            break;
        }
        let row: &PageRow = &rows[start];
        let above = bound.sort_value < row.sort_value || (bound.sort_value == row.sort_value
            && str_lt(bound.id.as_str(), row.id.as_str()));
        if above {
            proof {
                assert(row_lt(*bound, rows@[start as int]));
                let fg = spec_first_gt(rows@, *bound);
                if fg < start {
                    assert(!row_lt(*bound, rows@[fg]));
                    assert(row_lt(*bound, rows@[fg]));
                } else if fg > start {
                    assert(!row_lt(*bound, rows@[start as int]));
                }
            }
            break;
        }
        proof {
            assert(!row_lt(*bound, rows@[start as int]));
        }
        start = start + 1;
    }
    let lo = start;
    let hi = if limit <= rows.len() - lo {
        lo + limit
    } else {
        rows.len()
    };
    let mut out: Vec<PageRow> = Vec::new();
    let mut i: usize = lo;
    while i < hi
        invariant
            lo <= i <= hi <= rows@.len(),
            out@ =~= rows@.subrange(lo as int, i as int),
        decreases hi - i,
    {
        let row: &PageRow = &rows[i];
        out.push(PageRow { sort_value: row.sort_value, id: row.id.clone() });
        proof {
            assert(rows@[i as int] == (PageRow {
                sort_value: rows@[i as int].sort_value,
                id: rows@[i as int].id,
            }));
            assert(out@ =~= rows@.subrange(lo as int, i + 1));
        }
        i = i + 1;
    }
    proof {
        assert(out@ =~= spec_page(rows@, lo as int, limit as int));
    }
    out
}

proof fn lemma_row_lt_irrefl(a: PageRow)
    ensures
        !row_lt(a, a),
{
    lemma_str_lt_irrefl(a.id@);
}

proof fn lemma_row_lt_asym(a: PageRow, b: PageRow)
    requires
        row_lt(a, b),
    ensures
        !row_lt(b, a),
{
    if row_lt(b, a) {
        if a.sort_value == b.sort_value {
            lemma_str_lt_trans(a.id@, b.id@, a.id@);
            lemma_str_lt_irrefl(a.id@);
        }
    }
}

/// On a strictly sorted listing, the keyset bound taken from the previous
/// page's last row selects exactly the literal-offset page: absence of the
/// cached previous page only costs the shortcut, never changes the rows.
pub proof fn lemma_keyset_equals_offset(rows: Seq<PageRow>, offset: int, limit: int)
    requires
        strictly_sorted(rows),
        1 <= offset <= rows.len(),
    ensures
        spec_first_gt(rows, rows[offset - 1]) == offset,
        spec_page(rows, spec_first_gt(rows, rows[offset - 1]), limit) == spec_page(
            rows,
            offset,
            limit,
        ),
{
    let bound = rows[offset - 1];
    lemma_first_gt_bounds(rows, bound);
    lemma_first_gt_char(rows, bound);
    let fg = spec_first_gt(rows, bound);
    assert forall|w: int| 0 <= w < offset implies !row_lt(bound, #[trigger] rows[w]) by {
        if w < offset - 1 {
            assert(row_lt(rows[w], bound));
            lemma_row_lt_asym(rows[w], bound);
        } else {
            lemma_row_lt_irrefl(bound);
        }
    }
    if fg < offset {
        assert(row_lt(bound, rows[fg]));
        assert(!row_lt(bound, rows[fg]));
    }
    if fg > offset {
        assert(offset < rows.len() || fg > rows.len());
        assert(offset < rows.len());
        assert(row_lt(bound, rows[offset]));
        assert(!row_lt(bound, rows[offset]));
    }
}

/// The bound the keyset shortcut takes from a cached previous page: that
/// page's last row.  An empty cached page offers no bound.
pub fn keyset_bound(prev_page: &Vec<PageRow>) -> (r: Option<PageRow>)
    ensures
        match r {
            Some(b) => prev_page@.len() > 0 && b == prev_page@.last(),
            None => prev_page@.len() == 0,
        },
{
    if prev_page.len() == 0 {
        return None;
    }
    let last: &PageRow = &prev_page[prev_page.len() - 1];
    let b = PageRow { sort_value: last.sort_value, id: last.id.clone() };
    proof {
        assert(b == prev_page@.last());
    }
    Some(b)
}

} // verus!
