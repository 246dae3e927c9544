//! Completion propagation: toggling one task complete or incomplete
//! spreads through the dependency graph, so that a completed task never
//! has an incomplete prerequisite and an incomplete task never leaves a
//! dependent marked complete.

use vstd::prelude::*;

use crate::graph::{collect_reachable, lemma_reaches_self, reach_set, AdjacencyGraph, AdjEntryView};
use crate::strutil::{seq_contains_str, str_views, vec_contains_string};

verus! {

/// Which task a completion toggle starts from, and the direction it
/// spreads: `true` walks the unlock direction and un-completes, `false`
/// walks the prerequisite direction and completes.
pub struct AffectedTask {
    pub task_id: String,
    pub direction: bool,
}

proof fn lemma_views_contains(vs: Seq<String>, x: Seq<char>)
    ensures
        str_views(vs).contains(x) <==> seq_contains_str(vs, x),
{
    if str_views(vs).contains(x) {
        let i = choose|i: int| 0 <= i < str_views(vs).len() && str_views(vs)[i] == x;
        assert(vs[i]@ == x);
    }
    if seq_contains_str(vs, x) {
        let i = choose|i: int| 0 <= i < vs.len() && vs[i]@ == x;
        assert(str_views(vs)[i] == x);
    }
}

/// The new completed set after a toggle: walking the unlock direction
/// subtracts the reachable tasks, walking the prerequisite direction adds
/// them.
pub open spec fn spec_propagate(
    g: Map<Seq<char>, Seq<AdjEntryView>>,
    completed: Set<Seq<char>>,
    start: Seq<char>,
    direction: bool,
) -> Set<Seq<char>> {
    if direction {
        completed.difference(reach_set(g, direction, start))
    } else {
        completed.union(reach_set(g, direction, start))
    }
}

/// The load-modify half of the completion toggle: everything reachable
/// from the toggled task in the toggle's direction is collected and merged
/// into, or subtracted from, the user's completed list.  A start task
/// absent from the graph reaches nothing, so the list comes back
/// unchanged.  The caller persists the result in the same transaction it
/// loaded `completed` under.
pub fn set_completed_task(
    adj_list: &AdjacencyGraph,
    task: &AffectedTask,
    completed: &Vec<String>,
) -> (r: Vec<String>)
    requires
        adj_list.wf(),
        str_views(completed@).no_duplicates(),
    ensures
        str_views(r@).no_duplicates(),
        str_views(r@).to_set() == spec_propagate(
            adj_list.model(),
            str_views(completed@).to_set(),
            task.task_id@,
            task.direction,
        ),
{
    let marked = collect_reachable(adj_list, &task.task_id, task.direction);
    let ghost m = reach_set(adj_list.model(), task.direction, task.task_id@);
    let ghost c = str_views(completed@).to_set();
    if task.direction {
        let mut out: Vec<String> = Vec::new();
        let mut i: usize = 0;
        proof {
            assert(str_views(out@).to_set() =~= str_views(completed@.take(0)).to_set().difference(
                m,
            ));
        }
        while i < completed.len()
            invariant
                i <= completed@.len(),
                str_views(completed@).no_duplicates(),
                str_views(marked@).to_set() == m,
                str_views(out@).no_duplicates(),
                str_views(out@).to_set() == str_views(completed@.take(i as int)).to_set()
                    .difference(m),
            decreases completed@.len() - i,
        {
            let ghost x = completed@[i as int]@;
            let ghost out0 = out@;
            let keep = !vec_contains_string(&marked, &completed[i]);
            proof {
                lemma_views_contains(marked@, x);
                assert(keep == !m.contains(x));
                assert(str_views(completed@.take(i + 1)) =~= str_views(
                    completed@.take(i as int),
                ).push(x));
                assert(str_views(completed@.take(i + 1)).to_set() =~= str_views(
                    completed@.take(i as int),
                ).to_set().insert(x)) by {
                    let a = str_views(completed@.take(i + 1));
                    let b = str_views(completed@.take(i as int));
                    assert forall|y: Seq<char>| a.to_set().contains(y) implies b.to_set().insert(
                        x,
                    ).contains(y) by {
                        let w = choose|w: int| 0 <= w < a.len() && a[w] == y;
                        if w < b.len() {
                            assert(b[w] == y);
                        }
                    }
                    assert forall|y: Seq<char>| b.to_set().insert(x).contains(y) implies a.to_set()
                        .contains(y) by {
                        if b.to_set().contains(y) {
                            let w = choose|w: int| 0 <= w < b.len() && b[w] == y;
                            assert(a[w] == y);
                        } else {
                            assert(a[a.len() - 1] == y);
                        }
                    }
                }
            }
            if keep {
                out.push(completed[i].clone());
                proof {
                    assert(str_views(out@) =~= str_views(out0).push(x));
                    assert(!str_views(out0).to_set().contains(x)) by {
                        if str_views(out0).to_set().contains(x) {
                            let w = choose|w: int|
                                0 <= w < str_views(completed@.take(i as int)).len() && str_views(
                                    completed@.take(i as int),
                                )[w] == x;
                            assert(completed@[w]@ == x);
                            assert(str_views(completed@)[w] == str_views(completed@)[i as int]);
                        }
                    }
                    assert(str_views(out@).no_duplicates()) by {
                        assert(forall|w: int|
                            0 <= w < str_views(out0).len() ==> str_views(out0)[w] != x);
                    }
                    assert(str_views(out@).to_set() =~= str_views(out0).to_set().insert(x)) by {
                        let a = str_views(out@);
                        let b = str_views(out0);
                        assert forall|y: Seq<char>| a.to_set().contains(y) implies b.to_set()
                            .insert(x).contains(y) by {
                            let w = choose|w: int| 0 <= w < a.len() && a[w] == y;
                            if w < b.len() {
                                assert(b[w] == y);
                            }
                        }
                        assert forall|y: Seq<char>| b.to_set().insert(x).contains(y) implies a
                            .to_set().contains(y) by {
                            if b.to_set().contains(y) {
                                let w = choose|w: int| 0 <= w < b.len() && b[w] == y;
                                assert(a[w] == y);
                            } else {
                                assert(a[a.len() - 1] == y);
                            }
                        }
                    }
                    assert(str_views(out@).to_set() =~= str_views(completed@.take(i + 1)).to_set()
                        .difference(m));
                }
            } else {
                proof {
                    assert(str_views(out@).to_set() =~= str_views(completed@.take(i + 1)).to_set()
                        .difference(m));
                }
            }
            i = i + 1;
        }
        proof {
            assert(completed@.take(completed@.len() as int) =~= completed@);
            assert(str_views(out@).to_set() =~= spec_propagate(
                adj_list.model(),
                c,
                task.task_id@,
                task.direction,
            ));
        }
        out
    } else {
        let mut out: Vec<String> = Vec::new();
        let mut i: usize = 0;
        while i < completed.len()
            invariant
                i <= completed@.len(),
                str_views(completed@).no_duplicates(),
                str_views(marked@).to_set() == m,
                str_views(marked@).no_duplicates(),
                out@ =~= completed@.take(i as int),
            decreases completed@.len() - i,
        {
            out.push(completed[i].clone());
            proof {
                assert(out@ =~= completed@.take(i + 1));
            }
            i = i + 1;
        }
        proof {
            assert(out@ =~= completed@);
            assert(str_views(out@) =~= str_views(completed@));
        }
        let mut j: usize = 0;
        proof {
            assert(str_views(out@).to_set() =~= c.union(str_views(marked@.take(0)).to_set()));
        }
        while j < marked.len()
            invariant
                j <= marked@.len(),
                str_views(marked@).to_set() == m,
                str_views(out@).no_duplicates(),
                str_views(out@).to_set() == c.union(str_views(marked@.take(j as int)).to_set()),
            decreases marked@.len() - j,
        {
            let ghost x = marked@[j as int]@;
            let ghost out0 = out@;
            let absent = !vec_contains_string(&out, &marked[j]);
            proof {
                lemma_views_contains(out0, x);
                assert(str_views(marked@.take(j + 1)) =~= str_views(marked@.take(j as int)).push(
                    x,
                ));
                assert(str_views(marked@.take(j + 1)).to_set() =~= str_views(
                    marked@.take(j as int),
                ).to_set().insert(x)) by {
                    let a = str_views(marked@.take(j + 1));
                    let b = str_views(marked@.take(j as int));
                    assert forall|y: Seq<char>| a.to_set().contains(y) implies b.to_set().insert(
                        x,
                    ).contains(y) by {
                        let w = choose|w: int| 0 <= w < a.len() && a[w] == y;
                        if w < b.len() {
                            assert(b[w] == y);
                        }
                    }
                    assert forall|y: Seq<char>| b.to_set().insert(x).contains(y) implies a.to_set()
                        .contains(y) by {
                        if b.to_set().contains(y) {
                            let w = choose|w: int| 0 <= w < b.len() && b[w] == y;
                            assert(a[w] == y);
                        } else {
                            assert(a[a.len() - 1] == y);
                        }
                    }
                }
            }
            if absent {
                out.push(marked[j].clone());
                proof {
                    assert(str_views(out@) =~= str_views(out0).push(x));
                    assert(str_views(out@).no_duplicates()) by {
                        assert(forall|w: int|
                            0 <= w < str_views(out0).len() ==> str_views(out0)[w] != x);
                    }
                    assert(str_views(out@).to_set() =~= str_views(out0).to_set().insert(x)) by {
                        let a = str_views(out@);
                        let b = str_views(out0);
                        assert forall|y: Seq<char>| a.to_set().contains(y) implies b.to_set()
                            .insert(x).contains(y) by {
                            let w = choose|w: int| 0 <= w < a.len() && a[w] == y;
                            if w < b.len() {
                                assert(b[w] == y);
                            }
                        }
                        assert forall|y: Seq<char>| b.to_set().insert(x).contains(y) implies a
                            .to_set().contains(y) by {
                            if b.to_set().contains(y) {
                                let w = choose|w: int| 0 <= w < b.len() && b[w] == y;
                                assert(a[w] == y);
                            } else {
                                assert(a[a.len() - 1] == y);
                            }
                        }
                    }
                    assert(str_views(out@).to_set() =~= c.union(
                        str_views(marked@.take(j + 1)).to_set(),
                    ));
                }
            } else {
                proof {
                    assert(str_views(out0).to_set().contains(x));
                    assert(str_views(out@).to_set() =~= c.union(
                        str_views(marked@.take(j + 1)).to_set(),
                    ));
                }
            }
            j = j + 1;
        }
        proof {
            assert(marked@.take(marked@.len() as int) =~= marked@);
            assert(str_views(out@).to_set() =~= spec_propagate(
                adj_list.model(),
                c,
                task.task_id@,
                task.direction,
            ));
        }
        out
    }
}

/// Completion propagation monotonicity.  Completing `x` leaves a set that
/// covers `x`'s whole prerequisite closure; un-completing `x` leaves a set
/// disjoint from `x`'s whole unlock closure; and completing `x` and then
/// un-completing it leaves a set that contains neither `x` nor anything in
/// `x`'s unlock closure.
pub proof fn lemma_completion_propagation(
    g: Map<Seq<char>, Seq<AdjEntryView>>,
    c: Set<Seq<char>>,
    x: Seq<char>,
)
    requires
        g.dom().contains(x),
    ensures
        reach_set(g, false, x).subset_of(spec_propagate(g, c, x, false)),
        forall|v: Seq<char>|
            reach_set(g, true, x).contains(v) ==> !spec_propagate(g, c, x, true).contains(v),
        !spec_propagate(g, spec_propagate(g, c, x, false), x, true).contains(x),
        forall|v: Seq<char>|
            reach_set(g, true, x).contains(v) ==> !spec_propagate(
                g,
                spec_propagate(g, c, x, false),
                x,
                true,
            ).contains(v),
{
    lemma_reaches_self(g, true, x);
    assert(reach_set(g, true, x).contains(x));
}

} // verus!
