use catalog_core::keys::previous_page_params;
use catalog_core::keyset::{keyset_bound, page_by_keyset, page_by_offset, PageRow};
use catalog_core::query::ItemQueryParams;

fn row(sort_value: i64, id: &str) -> PageRow {
    PageRow { sort_value, id: id.to_string() }
}

fn ids(rows: &[PageRow]) -> Vec<String> {
    rows.iter().map(|r| r.id.clone()).collect()
}

/// Thirty rows, strictly ascending by (sort_value, id); row 20 (index 19)
/// carries sort value 50 and id "x7", the bound of the cached previous
/// page in the scenario.
fn listing() -> Vec<PageRow> {
    let mut rows = Vec::new();
    for i in 0..19i64 {
        rows.push(row(30 + i, &format!("a{i:02}")));
    }
    rows.push(row(50, "x7"));
    // Duplicate sort values after the bound: the id tie-break keeps the
    // order total.
    rows.push(row(50, "x8"));
    rows.push(row(50, "x9"));
    for i in 0..8i64 {
        rows.push(row(60 + i, &format!("z{i:02}")));
    }
    rows
}

#[test]
fn keyset_shortcut_matches_literal_offset() {
    // A page request for offset 20, limit 10, with the previous page's
    // last row (50, "x7") as the bound, must produce the same ten rows as
    // the literal offset.
    let rows = listing();
    let literal = page_by_offset(&rows, 20, 10);
    let shortcut = page_by_keyset(&rows, &row(50, "x7"), 10);
    assert_eq!(literal.len(), 10);
    assert_eq!(ids(&literal), ids(&shortcut));
}

#[test]
fn keyset_matches_offset_at_every_boundary() {
    let rows = listing();
    for offset in 1..rows.len() {
        let bound = row(rows[offset - 1].sort_value, &rows[offset - 1].id);
        for limit in [1usize, 3, 10, 100] {
            let literal = page_by_offset(&rows, offset, limit);
            let shortcut = page_by_keyset(&rows, &bound, limit);
            assert_eq!(ids(&literal), ids(&shortcut), "offset {offset} limit {limit}");
        }
    }
}

#[test]
fn offset_past_the_end_yields_an_empty_page() {
    let rows = listing();
    assert!(page_by_offset(&rows, rows.len(), 10).is_empty());
    assert!(page_by_offset(&rows, rows.len() + 5, 10).is_empty());
}

#[test]
fn bound_above_everything_yields_an_empty_page() {
    let rows = listing();
    assert!(page_by_keyset(&rows, &row(1000, "zz"), 10).is_empty());
}

#[test]
fn limit_clamps_to_the_tail() {
    let rows = listing();
    let page = page_by_offset(&rows, 25, 10);
    assert_eq!(page.len(), rows.len() - 25);
}

#[test]
fn shortcut_workflow_uses_the_cached_previous_page() {
    // The previous page's parameters differ only in offset; its last row
    // is the bound; the page it selects equals the literal one.
    let p = ItemQueryParams {
        search: "ak".to_string(),
        sort_asc: true,
        sort_by: "base_price".to_string(),
        item_type: String::new(),
        limit: 10,
        offset: 20,
        save: true,
    };
    let prev = previous_page_params(&p).expect("expected a previous page");
    assert_eq!(prev.offset, 10);
    assert_eq!(prev.limit, 10);
    let rows = listing();
    let prev_page = page_by_offset(&rows, prev.offset as usize, prev.limit as usize);
    let bound = keyset_bound(&prev_page).expect("previous page not empty");
    assert_eq!(bound.sort_value, rows[19].sort_value);
    assert_eq!(bound.id, rows[19].id);
    let literal = page_by_offset(&rows, 20, 10);
    let shortcut = page_by_keyset(&rows, &bound, 10);
    assert_eq!(ids(&literal), ids(&shortcut));
}

#[test]
fn first_page_has_no_previous_page() {
    let p = ItemQueryParams {
        search: String::new(),
        sort_asc: false,
        sort_by: String::new(),
        item_type: String::new(),
        limit: 10,
        offset: 5,
        save: false,
    };
    assert!(previous_page_params(&p).is_none());
    assert!(keyset_bound(&Vec::new()).is_none());
}
