use catalog_core::cache::CacheStore;
use catalog_core::graph::{build_adj_list, cached_adj_list, collect_reachable, perform_dfs, store_adj_list};
use catalog_core::propagate::{set_completed_task, AffectedTask};
use catalog_core::tags::GroupTag;
use catalog_core::types::TaskRequirement;

fn req(task_id: &str, req_task_id: &str) -> TaskRequirement {
    TaskRequirement {
        id: 0,
        status: "complete".to_string(),
        req_task_id: req_task_id.to_string(),
        task_id: task_id.to_string(),
    }
}

fn sorted(mut v: Vec<String>) -> Vec<String> {
    v.sort();
    v
}

#[test]
fn prerequisite_traversal_collects_the_chain() {
    // Edges: A requires B, B requires C.
    let g = build_adj_list(&vec![req("A", "B"), req("B", "C")]);
    let marked = collect_reachable(&g, &"A".to_string(), false);
    assert_eq!(sorted(marked), vec!["A".to_string(), "B".to_string(), "C".to_string()]);
}

#[test]
fn unlock_traversal_collects_the_dependents() {
    let g = build_adj_list(&vec![req("A", "B"), req("B", "C")]);
    let marked = collect_reachable(&g, &"C".to_string(), true);
    assert_eq!(sorted(marked), vec!["A".to_string(), "B".to_string(), "C".to_string()]);
    let marked_b = collect_reachable(&g, &"B".to_string(), true);
    assert_eq!(sorted(marked_b), vec!["A".to_string(), "B".to_string()]);
}

#[test]
fn absent_start_node_reaches_nothing() {
    let g = build_adj_list(&vec![req("A", "B")]);
    let marked = collect_reachable(&g, &"Z".to_string(), false);
    assert!(marked.is_empty());
}

#[test]
fn cyclic_edges_terminate() {
    let g = build_adj_list(&vec![req("A", "B"), req("B", "A")]);
    let marked = collect_reachable(&g, &"A".to_string(), false);
    assert_eq!(sorted(marked), vec!["A".to_string(), "B".to_string()]);
}

#[test]
fn completing_a_chain_marks_its_prerequisites() {
    // Completing A (prerequisite direction) from {} yields {A, B, C}.
    let g = build_adj_list(&vec![req("A", "B"), req("B", "C")]);
    let toggle = AffectedTask { task_id: "A".to_string(), direction: false };
    let after = set_completed_task(&g, &toggle, &Vec::new());
    assert_eq!(sorted(after), vec!["A".to_string(), "B".to_string(), "C".to_string()]);
}

#[test]
fn uncompleting_a_prerequisite_unmarks_its_dependents() {
    // Un-completing C (unlock direction) from {A, B, C} yields {}.
    let g = build_adj_list(&vec![req("A", "B"), req("B", "C")]);
    let toggle = AffectedTask { task_id: "C".to_string(), direction: true };
    let before = vec!["A".to_string(), "B".to_string(), "C".to_string()];
    let after = set_completed_task(&g, &toggle, &before);
    assert!(after.is_empty());
}

#[test]
fn complete_then_uncomplete_clears_the_start() {
    let g = build_adj_list(&vec![req("A", "B"), req("B", "C")]);
    let complete = AffectedTask { task_id: "A".to_string(), direction: false };
    let mid = set_completed_task(&g, &complete, &Vec::new());
    let uncomplete = AffectedTask { task_id: "A".to_string(), direction: true };
    let after = set_completed_task(&g, &uncomplete, &mid);
    assert!(!after.contains(&"A".to_string()));
    // B and C stay: nothing upstream of A depends on them only through A.
    assert_eq!(sorted(after), vec!["B".to_string(), "C".to_string()]);
}

#[test]
fn propagation_keeps_unrelated_completions() {
    let g = build_adj_list(&vec![req("A", "B")]);
    let toggle = AffectedTask { task_id: "A".to_string(), direction: false };
    let before = vec!["Q".to_string()];
    let after = set_completed_task(&g, &toggle, &before);
    assert_eq!(sorted(after), vec!["A".to_string(), "B".to_string(), "Q".to_string()]);
}

#[test]
fn graph_round_trips_through_the_cache() {
    // Building, serializing into the cache, and reading back yields a
    // structurally equal graph.
    let mut cache = CacheStore::new();
    let g = build_adj_list(&vec![req("A", "B"), req("B", "C"), req("D", "B")]);
    store_adj_list(&mut cache, &g);
    let back = cached_adj_list(&cache).expect("expected the graph back");
    let rows = g.rows();
    let rows_back = back.rows();
    assert_eq!(rows.len(), rows_back.len());
    for (a, b) in rows.iter().zip(rows_back.iter()) {
        assert_eq!(a.node, b.node);
        assert_eq!(a.edges.len(), b.edges.len());
        for (ea, eb) in a.edges.iter().zip(b.edges.iter()) {
            assert_eq!(ea.other, eb.other);
            assert_eq!(ea.unlock, eb.unlock);
        }
    }
}

#[test]
fn task_refresh_invalidates_the_cached_graph() {
    let mut cache = CacheStore::new();
    let g = build_adj_list(&vec![req("A", "B")]);
    store_adj_list(&mut cache, &g);
    assert!(cached_adj_list(&cache).is_some());
    cache.invalidate_cache_prefix(GroupTag::Tasks);
    assert!(cached_adj_list(&cache).is_none());
}

#[test]
fn perform_dfs_checks_coverage() {
    let g = build_adj_list(&vec![req("A", "B"), req("B", "C")]);
    let all = vec!["A".to_string(), "B".to_string(), "C".to_string()];
    assert!(perform_dfs("A".to_string(), &all, &g));
    // A reachable task missing from the listing fails the check.
    let missing = vec!["A".to_string(), "B".to_string()];
    assert!(!perform_dfs("A".to_string(), &missing, &g));
    // A listing more than nine entries larger than the closure fails too.
    let mut padded = all.clone();
    for i in 0..10 {
        padded.push(format!("extra{i}"));
    }
    assert!(!perform_dfs("A".to_string(), &padded, &g));
}
