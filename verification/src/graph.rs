//! The dependency graph: adjacency rows built from persisted prerequisite
//! relations, one entry per direction of each edge, cached as an encoded
//! row list and traversed depth-first to collect everything reachable in
//! one direction from a start node.

use vstd::prelude::*;

use crate::cache::{
    enc_list, lemma_write_behind_read_vec, spec_get, spec_insert, spec_read_vec, CacheModel,
    CacheStore, EntryModel,
};
use crate::codec::{lemma_concat_parts, Encodable};
use crate::keys::{adj_list_cache_key, spec_adj_list_key};
use crate::strutil::{seq_contains_str, str_views, vec_contains_string};
use crate::tags::GroupTag;
use crate::types::{TaskRequirement, TaskRequirementView};

verus! {

/// One directed adjacency record: a neighbour and the direction flag.
#[derive(Clone, Debug)]
pub struct AdjEntry {
    pub other: String,
    /// True on the entry that points from a prerequisite to the task it unlocks.
    pub unlock: bool,
}

/// The mathematical shape of a `AdjEntry`.
pub struct AdjEntryView {
    pub other: Seq<char>,
    pub unlock: bool,
}

impl DeepView for AdjEntry {
    type V = AdjEntryView;

    open spec fn deep_view(&self) -> AdjEntryView {
        AdjEntryView {
            other: self.other.deep_view(),
            unlock: self.unlock.deep_view(),
        }
    }
}

impl Encodable for AdjEntry {
    open spec fn enc_of(v: AdjEntryView) -> Seq<u8> {
        <String as Encodable>::enc_of(v.other)
            + (<bool as Encodable>::enc_of(v.unlock))
    }

    open spec fn enc_wf(v: AdjEntryView) -> bool {
        &&& <String as Encodable>::enc_wf(v.other)
        &&& <bool as Encodable>::enc_wf(v.unlock)
    }

    open spec fn dec_at(b: Seq<u8>, pos: int) -> Option<(AdjEntryView, int)> {
        match <String as Encodable>::dec_at(b, pos) {
            None => None,
            Some((x0, p0)) => {
                match <bool as Encodable>::dec_at(b, p0) {
                    None => None,
                    Some((x1, p1)) => 
                    Some((AdjEntryView {
                        other: x0,
                        unlock: x1,
                    }, p1)),
                }
            },
        }
    }

    proof fn lemma_enc_dec(v: AdjEntryView, b: Seq<u8>, pos: int) {
        let e0 = <String as Encodable>::enc_of(v.other);
        let e1 = <bool as Encodable>::enc_of(v.unlock);
        let s1 = e1;
        let s0 = e0 + s1;
        assert(Self::enc_of(v) == s0);
        let p0 = pos + e0.len() as int;
        let p1 = p0 + e1.len() as int;
        lemma_concat_parts(b, pos, e0, s1);
        <String as Encodable>::lemma_enc_dec(v.other, b, pos);
        <bool as Encodable>::lemma_enc_dec(v.unlock, b, p0);
        assert((AdjEntryView {
            other: v.other,
            unlock: v.unlock,
        }) == v);
        assert(Self::dec_at(b, pos) == Some((v, pos + Self::enc_of(v).len() as int)));
    }

    fn encode(&self, out: &mut Vec<u8>) {
        let ghost e0 = <String as Encodable>::enc_of(self.other.deep_view());
        let ghost e1 = <bool as Encodable>::enc_of(self.unlock.deep_view());
        let ghost t1 = e1;
        let ghost t0 = e0 + t1;
        self.other.encode(out);
        let ghost l0 = out@;
        self.unlock.encode(out);
        proof {
            assert(out@ == l0 + t1);
            assert(out@ =~= old(out)@ + t0) by {
                assert(l0 == old(out)@ + e0);
            }
            assert(final(out)@ == old(out)@ + Self::enc_of(self.deep_view()));
        }
    }

    fn decode(buf: &Vec<u8>, pos: usize) -> (r: Option<(Self, usize)>) {
        let (x0, p0) = match <String as Encodable>::decode(buf, pos) {
            None => {
                return None;
            },
            Some(x) => x,
        };
        let (x1, p1) = match <bool as Encodable>::decode(buf, p0) {
            None => {
                return None;
            },
            Some(x) => x,
        };
        Some((AdjEntry {
            other: x0,
            unlock: x1,
        }, p1))
    }
}

/// A node with every adjacency record that starts at it.
#[derive(Clone, Debug)]
pub struct AdjRow {
    pub node: String,
    pub edges: Vec<AdjEntry>,
}

/// The mathematical shape of a `AdjRow`.
pub struct AdjRowView {
    pub node: Seq<char>,
    pub edges: Seq<AdjEntryView>,
}

impl DeepView for AdjRow {
    type V = AdjRowView;

    open spec fn deep_view(&self) -> AdjRowView {
        AdjRowView {
            node: self.node.deep_view(),
            edges: self.edges.deep_view(),
        }
    }
}

impl Encodable for AdjRow {
    open spec fn enc_of(v: AdjRowView) -> Seq<u8> {
        <String as Encodable>::enc_of(v.node)
            + (<Vec<AdjEntry> as Encodable>::enc_of(v.edges))
    }

    open spec fn enc_wf(v: AdjRowView) -> bool {
        &&& <String as Encodable>::enc_wf(v.node)
        &&& <Vec<AdjEntry> as Encodable>::enc_wf(v.edges)
    }

    open spec fn dec_at(b: Seq<u8>, pos: int) -> Option<(AdjRowView, int)> {
        match <String as Encodable>::dec_at(b, pos) {
            None => None,
            Some((x0, p0)) => {
                match <Vec<AdjEntry> as Encodable>::dec_at(b, p0) {
                    None => None,
                    Some((x1, p1)) => 
                    Some((AdjRowView {
                        node: x0,
                        edges: x1,
                    }, p1)),
                }
            },
        }
    }

    proof fn lemma_enc_dec(v: AdjRowView, b: Seq<u8>, pos: int) {
        let e0 = <String as Encodable>::enc_of(v.node);
        let e1 = <Vec<AdjEntry> as Encodable>::enc_of(v.edges);
        let s1 = e1;
        let s0 = e0 + s1;
        assert(Self::enc_of(v) == s0);
        let p0 = pos + e0.len() as int;
        let p1 = p0 + e1.len() as int;
        lemma_concat_parts(b, pos, e0, s1);
        <String as Encodable>::lemma_enc_dec(v.node, b, pos);
        <Vec<AdjEntry> as Encodable>::lemma_enc_dec(v.edges, b, p0);
        assert((AdjRowView {
            node: v.node,
            edges: v.edges,
        }) == v);
        assert(Self::dec_at(b, pos) == Some((v, pos + Self::enc_of(v).len() as int)));
    }

    fn encode(&self, out: &mut Vec<u8>) {
        let ghost e0 = <String as Encodable>::enc_of(self.node.deep_view());
        let ghost e1 = <Vec<AdjEntry> as Encodable>::enc_of(self.edges.deep_view());
        let ghost t1 = e1;
        let ghost t0 = e0 + t1;
        self.node.encode(out);
        let ghost l0 = out@;
        self.edges.encode(out);
        proof {
            assert(out@ == l0 + t1);
            assert(out@ =~= old(out)@ + t0) by {
                assert(l0 == old(out)@ + e0);
            }
            assert(final(out)@ == old(out)@ + Self::enc_of(self.deep_view()));
        }
    }

    fn decode(buf: &Vec<u8>, pos: usize) -> (r: Option<(Self, usize)>) {
        let (x0, p0) = match <String as Encodable>::decode(buf, pos) {
            None => {
                return None;
            },
            Some(x) => x,
        };
        let (x1, p1) = match <Vec<AdjEntry> as Encodable>::decode(buf, p0) {
            None => {
                return None;
            },
            Some(x) => x,
        };
        Some((AdjRow {
            node: x0,
            edges: x1,
        }, p1))
    }
}

/// The graph as mathematics: each node mapped to its adjacency records.
pub open spec fn has_node_s(s: Seq<AdjRow>, k: Seq<char>) -> bool {
    exists|i: int| 0 <= i < s.len() && s[i].node@ == k
}

pub open spec fn nidx_of(s: Seq<AdjRow>, k: Seq<char>) -> int {
    choose|i: int| 0 <= i < s.len() && s[i].node@ == k
}

pub open spec fn unique_nodes(s: Seq<AdjRow>) -> bool {
    forall|i: int, j: int| 0 <= i < j < s.len() ==> s[i].node@ != s[j].node@
}

pub open spec fn rows_model(s: Seq<AdjRow>) -> Map<Seq<char>, Seq<AdjEntryView>> {
    Map::new(
        |k: Seq<char>| has_node_s(s, k),
        |k: Seq<char>| s[nidx_of(s, k)].edges.deep_view(),
    )
}

proof fn lemma_nidx_unique(s: Seq<AdjRow>, i: int)
    requires
        unique_nodes(s),
        0 <= i < s.len(),
    ensures
        nidx_of(s, s[i].node@) == i,
{
    let k = s[i].node@;
    assert(has_node_s(s, k));
    let j = nidx_of(s, k);
    assert(0 <= j < s.len() && s[j].node@ == k);
    if j < i {
        assert(s[j].node@ != s[i].node@);
    } else if i < j {
        assert(s[i].node@ != s[j].node@);
    }
}

proof fn lemma_rows_push(s: Seq<AdjRow>, row: AdjRow)
    requires
        unique_nodes(s),
        !has_node_s(s, row.node@),
    ensures
        unique_nodes(s.push(row)),
        rows_model(s.push(row)) == rows_model(s).insert(row.node@, row.edges.deep_view()),
{
    let s2 = s.push(row);
    assert forall|i: int, j: int| 0 <= i < j < s2.len() implies s2[i].node@ != s2[j].node@ by {
        if j < s.len() {
            assert(s2[i].node@ == s[i].node@ && s2[j].node@ == s[j].node@);
        } else {
            assert(s2[j].node@ == row.node@);
            assert(s2[i].node@ == s[i].node@);
            assert(!(s[i].node@ == row.node@));
        }
    }
    let lhs = rows_model(s2);
    let rhs = rows_model(s).insert(row.node@, row.edges.deep_view());
    assert forall|k: Seq<char>| lhs.dom().contains(k) <==> rhs.dom().contains(k) by {
        if k == row.node@ {
            assert(s2[s.len() as int].node@ == k);
            assert(has_node_s(s2, k));
        } else {
            if has_node_s(s2, k) {
                let i = choose|i: int| 0 <= i < s2.len() && s2[i].node@ == k;
                assert(i < s.len());
                assert(s[i].node@ == k);
                assert(has_node_s(s, k));
            }
            if has_node_s(s, k) {
                let i = choose|i: int| 0 <= i < s.len() && s[i].node@ == k;
                assert(s2[i].node@ == k);
                assert(has_node_s(s2, k));
            }
        }
    }
    assert forall|k: Seq<char>| lhs.dom().contains(k) implies lhs[k] == rhs[k] by {
        if k == row.node@ {
            lemma_nidx_unique(s2, s.len() as int);
        } else {
            let i = nidx_of(s2, k);
            assert(0 <= i < s2.len() && s2[i].node@ == k);
            assert(i < s.len());
            lemma_nidx_unique(s2, i);
            assert(s[i].node@ == k);
            lemma_nidx_unique(s, i);
        }
    }
    assert(lhs =~= rhs);
}

proof fn lemma_rows_remove(s: Seq<AdjRow>, i: int)
    requires
        unique_nodes(s),
        0 <= i < s.len(),
    ensures
        unique_nodes(s.remove(i)),
        rows_model(s.remove(i)) == rows_model(s).remove(s[i].node@),
{
    let k0 = s[i].node@;
    let s2 = s.remove(i);
    assert forall|a: int, b: int| 0 <= a < b < s2.len() implies s2[a].node@ != s2[b].node@ by {
        let a0 = if a < i {
            a
        } else {
            a + 1
        };
        let b0 = if b < i {
            b
        } else {
            b + 1
        };
        assert(s2[a] == s[a0] && s2[b] == s[b0]);
        assert(s[a0].node@ != s[b0].node@);
    }
    let lhs = rows_model(s2);
    let rhs = rows_model(s).remove(k0);
    assert forall|k: Seq<char>| lhs.dom().contains(k) <==> rhs.dom().contains(k) by {
        if has_node_s(s2, k) {
            let j = choose|j: int| 0 <= j < s2.len() && s2[j].node@ == k;
            let j0 = if j < i {
                j
            } else {
                j + 1
            };
            assert(s[j0].node@ == k);
            assert(has_node_s(s, k));
            if k == k0 {
                if j0 < i {
                    assert(s[j0].node@ != s[i].node@);
                } else {
                    assert(s[i].node@ != s[j0].node@);
                }
            }
        }
        if has_node_s(s, k) && k != k0 {
            let j = choose|j: int| 0 <= j < s.len() && s[j].node@ == k;
            assert(j != i);
            let j2 = if j < i {
                j
            } else {
                j - 1
            };
            assert(s2[j2] == s[j]);
            assert(has_node_s(s2, k));
        }
    }
    assert forall|k: Seq<char>| lhs.dom().contains(k) implies lhs[k] == rhs[k] by {
        let j = nidx_of(s2, k);
        assert(0 <= j < s2.len() && s2[j].node@ == k);
        let j0 = if j < i {
            j
        } else {
            j + 1
        };
        assert(s2[j] == s[j0]);
        lemma_nidx_unique(s2, j);
        lemma_nidx_unique(s, j0);
    }
    assert(lhs =~= rhs);
}

/// Appends one directed adjacency record to `from`'s row, creating the row
/// when absent.
pub open spec fn spec_add_edge(
    m: Map<Seq<char>, Seq<AdjEntryView>>,
    from: Seq<char>,
    to: Seq<char>,
    unlock: bool,
) -> Map<Seq<char>, Seq<AdjEntryView>> {
    let old_edges = if m.dom().contains(from) {
        m[from]
    } else {
        Seq::empty()
    };
    m.insert(from, old_edges.push(AdjEntryView { other: to, unlock }))
}

/// The adjacency map of a prerequisite-relation list: each relation
/// produces the forward (prerequisite) record and the reverse (unlock)
/// record.
pub open spec fn adj_of(reqs: Seq<TaskRequirementView>) -> Map<Seq<char>, Seq<AdjEntryView>>
    decreases reqs.len(),
{
    if reqs.len() == 0 {
        Map::empty()
    } else {
        let last = reqs.last();
        spec_add_edge(
            spec_add_edge(adj_of(reqs.drop_last()), last.task_id, last.req_task_id, false),
            last.req_task_id,
            last.task_id,
            true,
        )
    }
}

/// The dependency graph, rebuilt from the persisted relations whenever the
/// task dataset refreshes and served from the cache in between.
pub struct AdjacencyGraph {
    rows: Vec<AdjRow>,
}

impl AdjacencyGraph {
    /// Node keys are unique, so each node has exactly one row.
    pub closed spec fn wf(&self) -> bool {
        unique_nodes(self.rows@)
    }

    pub closed spec fn model(&self) -> Map<Seq<char>, Seq<AdjEntryView>> {
        rows_model(self.rows@)
    }

    pub closed spec fn spec_rows(&self) -> Seq<AdjRowView> {
        self.rows.deep_view()
    }

    /// The rows as stored; what `insert_vec` writes to the cache.
    pub fn rows(&self) -> (r: &Vec<AdjRow>)
        ensures
            r.deep_view() == self.spec_rows(),
            r@.len() == self.spec_rows().len(),
    {
        &self.rows
    }

    /// Accepts a decoded row list as a graph when its node keys are
    /// unique; anything else reads as a cache miss.
    pub fn from_rows(rows: Vec<AdjRow>) -> (r: Option<AdjacencyGraph>)
        ensures
            match r {
                Some(g) => g.wf() && g.spec_rows() == rows.deep_view() && g.model() == rows_model(
                    rows@,
                ),
                None => !unique_nodes(rows@),
            },
    {
        let mut i: usize = 0;
        while i < rows.len()
            invariant
                i <= rows@.len(),
                forall|a: int, b: int| 0 <= a < b < rows@.len() && b < i ==> rows@[a].node@
                    != rows@[b].node@,
            decreases rows@.len() - i,
        {
            let mut j: usize = 0;
            while j < i
                invariant
                    j <= i,
                    i < rows@.len(),
                    forall|a: int| 0 <= a < j ==> rows@[a].node@ != rows@[i as int].node@,
                decreases i - j,
            {
                if rows[j].node.eq(&rows[i].node) {
                    return None;
                }
                j = j + 1;
            }
            i = i + 1;
        }
        Some(AdjacencyGraph { rows })
    }

    pub fn new() -> (g: AdjacencyGraph)
        ensures
            g.wf(),
            g.model() == Map::<Seq<char>, Seq<AdjEntryView>>::empty(),
    {
        let g = AdjacencyGraph { rows: Vec::new() };
        proof {
            assert(rows_model(g.rows@) =~= Map::<Seq<char>, Seq<AdjEntryView>>::empty());
        }
        g
    }

    fn find_row(&self, node: &String) -> (r: Option<usize>)
        ensures
            match r {
                Some(i) => i < self.rows@.len() && self.rows@[i as int].node@ == node@,
                None => !has_node_s(self.rows@, node@),
            },
    {
        let mut i: usize = 0;
        while i < self.rows.len()
            invariant
                i <= self.rows@.len(),
                forall|j: int| 0 <= j < i ==> self.rows@[j].node@ != node@,
            decreases self.rows@.len() - i,
        {
            let row: &AdjRow = &self.rows[i];
            if row.node.eq(node) {
                return Some(i);
            }
            i = i + 1;
        }
        None
    }

    /// Whether `node` has a row of its own.
    pub fn contains_node(&self, node: &String) -> (r: bool)
        requires
            self.wf(),
        ensures
            r == self.model().dom().contains(node@),
    {
        match self.find_row(node) {
            Some(i) => {
                proof {
                    assert(has_node_s(self.rows@, node@));
                }
                true
            },
            None => false,
        }
    }

    /// The adjacency records of `node`, when it has any.
    pub fn edges_of<'a>(&'a self, node: &String) -> (r: Option<&'a Vec<AdjEntry>>)
        requires
            self.wf(),
        ensures
            match r {
                Some(es) => self.model().dom().contains(node@) && es.deep_view()
                    == self.model()[node@],
                None => !self.model().dom().contains(node@),
            },
    {
        match self.find_row(node) {
            None => None,
            Some(i) => {
                proof {
                    lemma_nidx_unique(self.rows@, i as int);
                }
                let row: &AdjRow = &self.rows[i];
                Some(&row.edges)
            },
        }
    }

    /// Appends the record `(to, unlock)` to `from`'s row.
    fn push_edge(&mut self, from: &String, to: &String, unlock: bool)
        requires
            old(self).wf(),
        ensures
            final(self).wf(),
            final(self).model() == spec_add_edge(old(self).model(), from@, to@, unlock),
    {
        let ghost m0 = self.model();
        let entry = AdjEntry { other: to.clone(), unlock };
        match self.find_row(from) {
            Some(i) => {
                proof {
                    lemma_nidx_unique(self.rows@, i as int);
                    lemma_rows_remove(self.rows@, i as int);
                }
                let mut row = self.rows.remove(i);
                let ghost edges0 = row.edges.deep_view();
                row.edges.push(entry);
                proof {
                    assert(row.edges.deep_view() =~= edges0.push(
                        AdjEntryView { other: to@, unlock },
                    ));
                    assert(!has_node_s(self.rows@, from@)) by {
                        if has_node_s(self.rows@, from@) {
                            let j = choose|j: int|
                                0 <= j < self.rows@.len() && self.rows@[j].node@ == from@;
                            assert(rows_model(self.rows@).dom().contains(from@));
                        }
                    }
                    lemma_rows_push(self.rows@, row);
                }
                self.rows.push(row);
                proof {
                    assert(final(self).model() =~= spec_add_edge(m0, from@, to@, unlock));
                }
            },
            None => {
                let row = AdjRow { node: from.clone(), edges: vec![entry] };
                proof {
                    assert(row.edges.deep_view() =~= Seq::<AdjEntryView>::empty().push(
                        AdjEntryView { other: to@, unlock },
                    ));
                    lemma_rows_push(self.rows@, row);
                }
                self.rows.push(row);
                proof {
                    assert(!m0.dom().contains(from@));
                    assert(final(self).model() =~= spec_add_edge(m0, from@, to@, unlock));
                }
            },
        }
    }
}

/// Folds the persisted prerequisite relations into the adjacency graph:
/// one relation yields the prerequisite-direction record on its task and
/// the unlock-direction record on its prerequisite.
pub fn build_adj_list(reqs: &Vec<TaskRequirement>) -> (g: AdjacencyGraph)
    ensures
        g.wf(),
        g.model() == adj_of(reqs.deep_view()),
{
    let mut g = AdjacencyGraph::new();
    let mut i: usize = 0;
    proof {
        assert(adj_of(reqs.deep_view().take(0)) =~= Map::<Seq<char>, Seq<AdjEntryView>>::empty());
    }
    while i < reqs.len()
        invariant
            i <= reqs@.len(),
            g.wf(),
            g.model() == adj_of(reqs.deep_view().take(i as int)),
        decreases reqs@.len() - i,
    {
        let req: &TaskRequirement = &reqs[i];
        g.push_edge(&req.task_id, &req.req_task_id, false);
        g.push_edge(&req.req_task_id, &req.task_id, true);
        proof {
            let dv = reqs.deep_view();
            assert(dv.take(i + 1).drop_last() =~= dv.take(i as int));
            assert(dv.take(i + 1).last() == dv[i as int]);
            assert(dv[i as int] == reqs@[i as int].deep_view());
        }
        i = i + 1;
    }
    proof {
        assert(reqs.deep_view().take(reqs@.len() as int) =~= reqs.deep_view());
    }
    g
}

/// A `dir`-directed adjacency record from `u` to `v`.
pub open spec fn has_edge(
    g: Map<Seq<char>, Seq<AdjEntryView>>,
    dir: bool,
    u: Seq<char>,
    v: Seq<char>,
) -> bool {
    g.dom().contains(u) && exists|i: int|
        0 <= i < g[u].len() && g[u][i].other == v && g[u][i].unlock == dir
}

/// Consecutive nodes of `p` are joined by `dir`-directed records.
pub open spec fn is_path(
    g: Map<Seq<char>, Seq<AdjEntryView>>,
    dir: bool,
    p: Seq<Seq<char>>,
) -> bool {
    p.len() >= 1 && forall|i: int| 0 <= i < p.len() - 1 ==> #[trigger] has_edge(g, dir, p[i], p[i + 1])
}

/// `v` lies on some `dir`-directed path out of `start`.  A start node with
/// no row of its own reaches nothing, itself included.
pub open spec fn reaches(
    g: Map<Seq<char>, Seq<AdjEntryView>>,
    dir: bool,
    start: Seq<char>,
    v: Seq<char>,
) -> bool {
    g.dom().contains(start) && exists|p: Seq<Seq<char>>|
        is_path(g, dir, p) && p.first() == start && p.last() == v
}

/// The `dir`-directed transitive closure of `start`, `start` included.
pub open spec fn reach_set(
    g: Map<Seq<char>, Seq<AdjEntryView>>,
    dir: bool,
    start: Seq<char>,
) -> Set<Seq<char>> {
    Set::new(|v: Seq<char>| reaches(g, dir, start, v))
}

pub proof fn lemma_reaches_self(g: Map<Seq<char>, Seq<AdjEntryView>>, dir: bool, start: Seq<char>)
    requires
        g.dom().contains(start),
    ensures
        reaches(g, dir, start, start),
{
    let p = seq![start];
    assert(is_path(g, dir, p));
    assert(p.first() == start && p.last() == start);
}

pub proof fn lemma_reaches_step(
    g: Map<Seq<char>, Seq<AdjEntryView>>,
    dir: bool,
    start: Seq<char>,
    u: Seq<char>,
    v: Seq<char>,
)
    requires
        reaches(g, dir, start, u),
        has_edge(g, dir, u, v),
    ensures
        reaches(g, dir, start, v),
{
    let p = choose|p: Seq<Seq<char>>| is_path(g, dir, p) && p.first() == start && p.last() == u;
    let p2 = p.push(v);
    assert(is_path(g, dir, p2)) by {
        assert forall|i: int| 0 <= i < p2.len() - 1 implies #[trigger] has_edge(g, dir, p2[i], p2[i + 1]) by {
            if i < p.len() - 1 {
                assert(p2[i] == p[i] && p2[i + 1] == p[i + 1]);
            } else {
                assert(p2[i] == p.last() && p2[i + 1] == v);
            }
        }
    }
    assert(p2.first() == start && p2.last() == v);
}

/// A set that contains the head of a path and is closed under the path's
/// direction contains its tail.
proof fn lemma_path_in_closed(
    g: Map<Seq<char>, Seq<AdjEntryView>>,
    dir: bool,
    p: Seq<Seq<char>>,
    s: Set<Seq<char>>,
)
    requires
        is_path(g, dir, p),
        s.contains(p.first()),
        forall|u: Seq<char>, v: Seq<char>|
            s.contains(u) && #[trigger] has_edge(g, dir, u, v) ==> s.contains(v),
    ensures
        s.contains(p.last()),
    decreases p.len(),
{
    if p.len() == 1 {
        assert(p.last() == p.first());
    } else {
        let i0: int = 0;
        assert(0 <= i0 < p.len() - 1);
        assert(has_edge(g, dir, p[i0], p[i0 + 1]));
        assert(s.contains(p[1]));
        let q = p.drop_first();
        assert(is_path(g, dir, q)) by {
            assert forall|i: int| 0 <= i < q.len() - 1 implies #[trigger] has_edge(g, dir, q[i], q[i + 1]) by {
                assert(q[i] == p[i + 1] && q[i + 1] == p[i + 2]);
            }
        }
        assert(q.first() == p[1]);
        lemma_path_in_closed(g, dir, q, s);
        assert(q.last() == p.last());
    }
}

/// A set containing `start` and closed under `dir`-directed records
/// contains the whole closure of `start`.
pub proof fn lemma_closed_contains_reachable(
    g: Map<Seq<char>, Seq<AdjEntryView>>,
    dir: bool,
    start: Seq<char>,
    s: Set<Seq<char>>,
)
    requires
        s.contains(start),
        forall|u: Seq<char>, v: Seq<char>|
            s.contains(u) && #[trigger] has_edge(g, dir, u, v) ==> s.contains(v),
    ensures
        forall|v: Seq<char>| reaches(g, dir, start, v) ==> s.contains(v),
{
    assert forall|v: Seq<char>| reaches(g, dir, start, v) implies s.contains(v) by {
        let p = choose|p: Seq<Seq<char>>|
            is_path(g, dir, p) && p.first() == start && p.last() == v;
        lemma_path_in_closed(g, dir, p, s);
    }
}

proof fn lemma_views_contains(vs: Seq<String>, x: Seq<char>)
    ensures
        str_views(vs).contains(x) <==> seq_contains_str(vs, x),
{
    if str_views(vs).contains(x) {
        let i = choose|i: int| 0 <= i < str_views(vs).len() && str_views(vs)[i] == x;
        assert(vs[i]@ == x);
    }
    if seq_contains_str(vs, x) {
        let i = choose|i: int| 0 <= i < vs.len() && vs[i]@ == x;
        assert(str_views(vs)[i] == x);
    }
}


/// The neighbour names a row mentions.
pub open spec fn row_others(row: AdjRowView) -> Seq<Seq<char>> {
    row.edges.map_values(|e: AdjEntryView| e.other)
}

/// Every neighbour name any row mentions; with the start node added, an
/// upper bound on what a traversal can ever visit.
pub open spec fn others_of(rows: Seq<AdjRowView>) -> Seq<Seq<char>>
    decreases rows.len(),
{
    if rows.len() == 0 {
        Seq::empty()
    } else {
        others_of(rows.drop_last()) + row_others(rows.last())
    }
}

proof fn lemma_other_in_others(rows: Seq<AdjRowView>, i: int, j: int)
    requires
        0 <= i < rows.len(),
        0 <= j < rows[i].edges.len(),
    ensures
        others_of(rows).contains(rows[i].edges[j].other),
    decreases rows.len(),
{
    if i == rows.len() - 1 {
        let base = others_of(rows.drop_last()).len() as int;
        assert(others_of(rows)[base + j] == row_others(rows.last())[j]);
    } else {
        lemma_other_in_others(rows.drop_last(), i, j);
        let k = choose|k: int|
            0 <= k < others_of(rows.drop_last()).len() && others_of(rows.drop_last())[k]
                == rows.drop_last()[i].edges[j].other;
        assert(others_of(rows)[k] == others_of(rows.drop_last())[k]);
    }
}

/// Depth-first collection of everything the graph reaches from `start` in
/// direction `dir`, `start` included; a start node without a row yields
/// nothing.  The visited list guards against cycles, so the walk ends on
/// any input.
pub fn collect_reachable(g: &AdjacencyGraph, start: &String, dir: bool) -> (marked: Vec<String>)
    requires
        g.wf(),
    ensures
        str_views(marked@).no_duplicates(),
        str_views(marked@).to_set() == reach_set(g.model(), dir, start@),
{
    let ghost gm = g.model();
    let ghost univ = seq![start@] + others_of(g.rows.deep_view());
    let ghost nbound = univ.len() as int;
    if !g.contains_node(start) {
        let e: Vec<String> = Vec::new();
        proof {
            assert(str_views(e@).to_set() =~= reach_set(gm, dir, start@));
        }
        return e;
    }
    let mut visited: Vec<String> = Vec::new();
    let mut stack: Vec<String> = Vec::new();
    stack.push(start.clone());
    proof {
        lemma_reaches_self(gm, dir, start@);
        assert(univ[0] == start@);
        assert(univ.contains(start@));
        assert(stack@[0]@ == start@);
        assert(seq_contains_str(stack@, start@));
    }
    loop
        invariant_except_break
            g.wf(),
            gm == g.model(),
            gm.dom().contains(start@),
            forall|i: int| 0 <= i < visited@.len() ==> reaches(gm, dir, start@, #[trigger] visited@[i]@),
            forall|i: int| 0 <= i < stack@.len() ==> reaches(gm, dir, start@, #[trigger] stack@[i]@),
            str_views(visited@).no_duplicates(),
            seq_contains_str(visited@, start@) || seq_contains_str(stack@, start@),
            forall|i: int, v: Seq<char>|
                0 <= i < visited@.len() && #[trigger] has_edge(gm, dir, visited@[i]@, v)
                    ==> seq_contains_str(visited@, v) || seq_contains_str(stack@, v),
            univ == seq![start@] + others_of(g.rows.deep_view()),
            nbound == univ.len() as int,
            forall|i: int| 0 <= i < visited@.len() ==> univ.contains(#[trigger] visited@[i]@),
            forall|i: int| 0 <= i < stack@.len() ==> univ.contains(#[trigger] stack@[i]@),
            visited@.len() <= nbound,
        ensures
            gm == g.model(),
            gm.dom().contains(start@),
            stack@.len() == 0,
            forall|i: int| 0 <= i < visited@.len() ==> reaches(gm, dir, start@, #[trigger] visited@[i]@),
            str_views(visited@).no_duplicates(),
            seq_contains_str(visited@, start@),
            forall|i: int, v: Seq<char>|
                0 <= i < visited@.len() && #[trigger] has_edge(gm, dir, visited@[i]@, v)
                    ==> seq_contains_str(visited@, v),
        decreases nbound - visited@.len(), stack@.len(),
    {
        let ghost stack0 = stack@;
        let ghost visited0 = visited@;
        let popped = stack.pop();
        match popped {
            None => {
                break;
            },
            Some(top) => {
                proof {
                    assert(stack0[stack0.len() - 1]@ == top@);
                    assert(reaches(gm, dir, start@, top@));
                }
                let already = vec_contains_string(&visited, &top);
                if !already {
                    visited.push(top.clone());
                    proof {
                        assert(visited@[visited@.len() - 1]@ == top@);
                        assert(seq_contains_str(visited@, top@));
                        assert(str_views(visited@) =~= str_views(visited0).push(top@));
                        assert(str_views(visited@).no_duplicates()) by {
                            assert(forall|i: int|
                                0 <= i < visited0.len() ==> str_views(visited0)[i] != top@);
                        }
                        assert(visited@.len() <= nbound) by {
                            str_views(visited@).unique_seq_to_set();
                            vstd::seq_lib::seq_to_set_is_finite(univ);
                            assert(str_views(visited@).to_set().subset_of(univ.to_set())) by {
                                assert forall|x: Seq<char>|
                                    str_views(visited@).to_set().contains(x) implies univ.to_set()
                                    .contains(x) by {
                                    let i = choose|i: int|
                                        0 <= i < str_views(visited@).len() && str_views(visited@)[i]
                                            == x;
                                    assert(visited@[i]@ == x);
                                    assert(univ.contains(x));
                                }
                            }
                            vstd::set_lib::lemma_len_subset(
                                str_views(visited@).to_set(),
                                univ.to_set(),
                            );
                            univ.lemma_cardinality_of_set();
                        }
                    }
                } else {
                    proof {
                        assert(seq_contains_str(visited@, top@));
                    }
                }
                // After the pop the start node and every recorded edge
                // target must still be locatable in the two lists.
                proof {
                    assert(seq_contains_str(visited@, start@) || seq_contains_str(
                        stack@,
                        start@,
                    )) by {
                        if seq_contains_str(visited0, start@) {
                            let w = choose|w: int|
                                0 <= w < visited0.len() && visited0[w]@ == start@;
                            assert(visited@[w]@ == start@);
                        } else {
                            let w = choose|w: int| 0 <= w < stack0.len() && stack0[w]@ == start@;
                            if w < stack0.len() - 1 {
                                assert(stack@[w]@ == start@);
                            } else {
                                assert(top@ == start@);
                            }
                        }
                    }
                    assert forall|i: int, v: Seq<char>|
                        0 <= i < visited0.len() && #[trigger] has_edge(gm, dir, visited0[i]@, v)
                            implies seq_contains_str(visited@, v) || seq_contains_str(stack@, v)
                            || v == top@ by {
                        if seq_contains_str(visited0, v) {
                            let w = choose|w: int| 0 <= w < visited0.len() && visited0[w]@ == v;
                            assert(visited@[w]@ == v);
                        } else {
                            assert(seq_contains_str(stack0, v));
                            let w = choose|w: int| 0 <= w < stack0.len() && stack0[w]@ == v;
                            if w < stack0.len() - 1 {
                                assert(stack@[w]@ == v);
                            } else {
                                assert(v == top@);
                            }
                        }
                    }
                }
                if !already {
                    match g.edges_of(&top) {
                        None => {
                            proof {
                                assert(!gm.dom().contains(top@));
                                assert forall|i: int, v: Seq<char>|
                                    0 <= i < visited@.len() && #[trigger] has_edge(
                                        gm,
                                        dir,
                                        visited@[i]@,
                                        v,
                                    ) implies seq_contains_str(visited@, v) || seq_contains_str(
                                    stack@,
                                    v,
                                ) by {
                                    if v == top@ {
                                        assert(seq_contains_str(visited@, v));
                                    } else if i == visited@.len() - 1 {
                                        assert(visited@[i]@ == top@);
                                        assert(!has_edge(gm, dir, visited@[i]@, v));
                                    } else {
                                        assert(visited0[i]@ == visited@[i]@);
                                    }
                                }
                            }
                        },
                        Some(es) => {
                            let ghost edges = es.deep_view();
                            let mut j: usize = 0;
                            while j < es.len()
                                invariant
                                    j <= es@.len(),
                                    g.wf(),
                                    gm == g.model(),
                                    gm.dom().contains(start@),
                                    edges == es.deep_view(),
                                    gm.dom().contains(top@),
                                    gm[top@] == edges,
                                    reaches(gm, dir, start@, top@),
                                    seq_contains_str(visited@, top@),
                                    forall|i: int|
                                        0 <= i < visited@.len() ==> reaches(
                                            gm,
                                            dir,
                                            start@,
                                            #[trigger] visited@[i]@,
                                        ),
                                    forall|i: int|
                                        0 <= i < stack@.len() ==> reaches(
                                            gm,
                                            dir,
                                            start@,
                                            #[trigger] stack@[i]@,
                                        ),
                                    str_views(visited@).no_duplicates(),
                                    seq_contains_str(visited@, start@) || seq_contains_str(
                                        stack@,
                                        start@,
                                    ),
                                    visited@.len() >= 1,
                                    visited@[visited@.len() - 1]@ == top@,
                                    forall|i: int, v: Seq<char>|
                                        0 <= i < visited@.len() - 1 && #[trigger] has_edge(
                                            gm,
                                            dir,
                                            visited@[i]@,
                                            v,
                                        ) ==> seq_contains_str(visited@, v) || seq_contains_str(
                                            stack@,
                                            v,
                                        ) || v == top@,
                                    forall|e: int|
                                        0 <= e < j && (#[trigger] edges[e]).unlock == dir
                                            ==> seq_contains_str(visited@, edges[e].other)
                                            || seq_contains_str(stack@, edges[e].other),
                                    univ == seq![start@] + others_of(g.rows.deep_view()),
                                    nbound == univ.len() as int,
                                    forall|i: int|
                                        0 <= i < visited@.len() ==> univ.contains(
                                            #[trigger] visited@[i]@,
                                        ),
                                    forall|i: int|
                                        0 <= i < stack@.len() ==> univ.contains(
                                            #[trigger] stack@[i]@,
                                        ),
                                    visited@.len() <= nbound,
                                decreases es@.len() - j,
                            {
                                let ghost stackb = stack@;
                                let entry: &AdjEntry = &es[j];
                                if entry.unlock == dir {
                                    stack.push(entry.other.clone());
                                    proof {
                                        assert(edges[j as int].other == entry.other@);
                                        assert(has_edge(gm, dir, top@, entry.other@)) by {
                                            assert(gm[top@][j as int] == edges[j as int]);
                                        }
                                        lemma_reaches_step(gm, dir, start@, top@, entry.other@);
                                        assert(univ.contains(entry.other@)) by {
                                            let rows = g.rows@;
                                            assert(has_node_s(rows, top@));
                                            let ri = nidx_of(rows, top@);
                                            assert(0 <= ri < rows.len() && rows[ri].node@ == top@);
                                            assert(gm[top@] == rows[ri].edges.deep_view());
                                            let rv = g.rows.deep_view();
                                            assert(rv[ri] == rows[ri].deep_view());
                                            assert(rv[ri].edges == rows[ri].edges.deep_view());
                                            assert(rv[ri].edges[j as int].other == entry.other@);
                                            lemma_other_in_others(rv, ri, j as int);
                                            let k = choose|k: int|
                                                0 <= k < others_of(rv).len() && others_of(rv)[k]
                                                    == entry.other@;
                                            assert(univ[1 + k] == entry.other@);
                                        }
                                        assert(stack@[stack@.len() - 1]@ == entry.other@);
                                        assert forall|w: Seq<char>|
                                            seq_contains_str(stackb, w) implies seq_contains_str(
                                            stack@,
                                            w,
                                        ) by {
                                            let x = choose|x: int|
                                                0 <= x < stackb.len() && stackb[x]@ == w;
                                            assert(stack@[x]@ == w);
                                        }
                                    }
                                }
                                j = j + 1;
                            }
                            proof {
                                assert forall|i: int, v: Seq<char>|
                                    0 <= i < visited@.len() && #[trigger] has_edge(
                                        gm,
                                        dir,
                                        visited@[i]@,
                                        v,
                                    ) implies seq_contains_str(visited@, v) || seq_contains_str(
                                    stack@,
                                    v,
                                ) by {
                                    if v == top@ {
                                        assert(seq_contains_str(visited@, v));
                                    } else if i == visited@.len() - 1 {
                                        assert(visited@[i]@ == top@);
                                        let e = choose|e: int|
                                            0 <= e < gm[top@].len() && gm[top@][e].other == v
                                                && gm[top@][e].unlock == dir;
                                        assert(edges[e].other == v);
                                        assert(seq_contains_str(visited@, v) || seq_contains_str(
                                            stack@,
                                            v,
                                        ));
                                    }
                                }
                            }
                        },
                    }
                } else {
                    proof {
                        assert forall|i: int, v: Seq<char>|
                            0 <= i < visited@.len() && #[trigger] has_edge(
                                gm,
                                dir,
                                visited@[i]@,
                                v,
                            ) implies seq_contains_str(visited@, v) || seq_contains_str(
                            stack@,
                            v,
                        ) by {
                            if v == top@ {
                                assert(seq_contains_str(visited@, v));
                            }
                        }
                    }
                }
            },
        }
    }
    proof {
        let s = str_views(visited@).to_set();
        lemma_views_contains(visited@, start@);
        assert(s.contains(start@));
        assert(forall|u: Seq<char>, v: Seq<char>|
            s.contains(u) && #[trigger] has_edge(gm, dir, u, v) ==> s.contains(v)) by {
            assert forall|u: Seq<char>, v: Seq<char>|
                s.contains(u) && #[trigger] has_edge(gm, dir, u, v) implies s.contains(v) by {
                lemma_views_contains(visited@, u);
                let i = choose|i: int| 0 <= i < visited@.len() && visited@[i]@ == u;
                assert(has_edge(gm, dir, visited@[i]@, v));
                assert(seq_contains_str(visited@, v));
                lemma_views_contains(visited@, v);
            }
        }
        lemma_closed_contains_reachable(gm, dir, start@, s);
        assert(s =~= reach_set(gm, dir, start@)) by {
            assert forall|v: Seq<char>| s.contains(v) implies reach_set(gm, dir, start@).contains(
                v,
            ) by {
                lemma_views_contains(visited@, v);
                let i = choose|i: int| 0 <= i < visited@.len() && visited@[i]@ == v;
                assert(reaches(gm, dir, start@, visited@[i]@));
            }
        }
    }
    visited
}

/// Walks the prerequisite direction from `start_id` and reports whether
/// everything reached lies in `ids` and covers all but fewer than ten of
/// them; a consistency check over a filtered task listing.
pub fn perform_dfs(start_id: String, ids: &Vec<String>, adj_list: &AdjacencyGraph) -> (ok: bool)
    requires
        adj_list.wf(),
    ensures
        ok == ({
            let r = reach_set(adj_list.model(), false, start_id@);
            (forall|v: Seq<char>| r.contains(v) ==> seq_contains_str(ids@, v)) && ids@.len()
                < r.len() + 10
        }),
{
    let marked = collect_reachable(adj_list, &start_id, false);
    let ghost r = reach_set(adj_list.model(), false, start_id@);
    let mut i: usize = 0;
    while i < marked.len()
        invariant
            i <= marked@.len(),
            r == reach_set(adj_list.model(), false, start_id@),
            str_views(marked@).no_duplicates(),
            str_views(marked@).to_set() == r,
            forall|j: int| 0 <= j < i ==> seq_contains_str(ids@, #[trigger] marked@[j]@),
        decreases marked@.len() - i,
    {
        if !vec_contains_string(ids, &marked[i]) {
            proof {
                assert(str_views(marked@)[i as int] == marked@[i as int]@);
                assert(r.contains(marked@[i as int]@));
                assert(!(forall|v: Seq<char>| r.contains(v) ==> seq_contains_str(ids@, v))) by {
                    assert(r.contains(marked@[i as int]@) && !seq_contains_str(
                        ids@,
                        marked@[i as int]@,
                    ));
                }
            }
            return false;
        }
        i = i + 1;
    }
    proof {
        str_views(marked@).unique_seq_to_set();
        assert(r.len() == marked@.len());
        assert(forall|v: Seq<char>| r.contains(v) ==> seq_contains_str(ids@, v)) by {
            assert forall|v: Seq<char>| r.contains(v) implies seq_contains_str(ids@, v) by {
                lemma_views_contains(marked@, v);
                let j = choose|j: int| 0 <= j < marked@.len() && marked@[j]@ == v;
                assert(seq_contains_str(ids@, marked@[j]@));
            }
        }
    }
    if ids.len() < 10 {
        true
    } else {
        ids.len() - 10 < marked.len()
    }
}

/// Node names pairwise distinct, at the view level.
pub open spec fn unique_row_views(rows: Seq<AdjRowView>) -> bool {
    forall|i: int, j: int| 0 <= i < j < rows.len() ==> rows[i].node != rows[j].node
}

/// Reads the dependency graph back from the cache.  A missing entry, a
/// slot of the wrong shape, bytes that fail to decode, or a decoded row
/// list with a repeated node all read as a miss, and the caller rebuilds.
pub fn cached_adj_list(cache: &CacheStore) -> (r: Option<AdjacencyGraph>)
    requires
        cache.wf(),
    ensures
        match spec_read_vec::<AdjRow>(spec_get(cache.model(), spec_adj_list_key())) {
            None => r is None,
            Some(rows) => match r {
                Some(g) => g.wf() && g.spec_rows() == rows,
                None => !unique_row_views(rows),
            },
        },
{
    let key = adj_list_cache_key();
    match cache.get_vec::<AdjRow>(&key) {
        None => None,
        Some(rows) => {
            let ghost rv = rows.deep_view();
            let ghost re = rows@;
            let g = AdjacencyGraph::from_rows(rows);
            proof {
                if g is None {
                    assert(!unique_nodes(re));
                    let (i, j) = choose|i: int, j: int|
                        0 <= i < j < re.len() && re[i].node@ == re[j].node@;
                    assert(rv[i].node == rv[j].node);
                }
            }
            g
        },
    }
}

/// Write-behind of a freshly rebuilt graph: its rows go into the cache
/// under the adjacency-list key, registered with the task dataset so a
/// task refresh drops them.
pub fn store_adj_list(cache: &mut CacheStore, g: &AdjacencyGraph)
    requires
        old(cache).wf(),
    ensures
        final(cache).wf(),
        final(cache).model() == spec_insert(
            old(cache).model(),
            spec_adj_list_key(),
            EntryModel::Many(enc_list::<AdjRow>(g.spec_rows())),
            GroupTag::Tasks,
        ),
{
    let key = adj_list_cache_key();
    cache.insert_vec::<AdjRow>(key, g.rows(), GroupTag::Tasks);
}

/// Graph round trip: the rows of a built graph, serialized into the cache
/// under the adjacency-list key, read back as exactly the same rows —
/// same node set, same adjacency lists, entry for entry.
pub proof fn lemma_graph_round_trip(m: CacheModel, rows: Seq<AdjRowView>)
    requires
        forall|i: int| 0 <= i < rows.len() ==> <AdjRow as Encodable>::enc_wf(#[trigger] rows[i]),
    ensures
        spec_read_vec::<AdjRow>(
            spec_get(
                spec_insert(
                    m,
                    spec_adj_list_key(),
                    EntryModel::Many(enc_list::<AdjRow>(rows)),
                    GroupTag::Tasks,
                ),
                spec_adj_list_key(),
            ),
        ) == Some(rows),
{
    lemma_write_behind_read_vec::<AdjRow>(m, spec_adj_list_key(), rows, GroupTag::Tasks);
}

} // verus!
