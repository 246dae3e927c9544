//! The by-id read path: each record type that can be fetched by id has a
//! per-record cache key; a request's ids are first split into cache hits
//! and misses, the misses are fetched outside and handed back, the fetched
//! records are written behind into the cache, and the merged result is
//! returned sorted by id.

use vstd::prelude::*;
use vstd::multiset::Multiset;

use crate::cache::{spec_get, spec_insert, spec_read, CacheModel, CacheStore, EntryModel};
use crate::codec::Encodable;
use crate::strutil::{str_lt, str_lt_spec};
use crate::tags::{spec_tag_prefix, tag_prefix, GroupTag};
use crate::types::{Ammo, Item, ItemBase, Task, TaskBase};

verus! {

/// A record type servable by id through the cache.  Each implementor owns
/// a distinct key suffix, so the per-record key spaces never collide.
pub trait Page: Encodable {
    /// The record's id as mathematics.
    spec fn spec_id(&self) -> Seq<char>;

    /// The group tag of this record's dataset.
    spec fn spec_tag() -> GroupTag;

    /// The cache key that serves the record with id `id`.
    spec fn spec_key(id: Seq<char>) -> Seq<char>;

    fn id(&self) -> (r: &str)
        ensures
            r@ == self.spec_id(),
    ;

    fn unique_cache_key_prefix() -> (r: GroupTag)
        ensures
            r == Self::spec_tag(),
    ;

    fn make_cache_key(id: &str) -> (r: String)
        ensures
            r@ == Self::spec_key(id@),
    ;
}

impl Page for Item {
    open spec fn spec_id(&self) -> Seq<char> {
        self._id@
    }

    open spec fn spec_tag() -> GroupTag {
        GroupTag::Items
    }

    open spec fn spec_key(id: Seq<char>) -> Seq<char> {
        spec_tag_prefix(GroupTag::Items) + id + "!"@
    }

    fn id(&self) -> (r: &str) {
        self._id.as_str()
    }

    fn unique_cache_key_prefix() -> (r: GroupTag) {
        GroupTag::Items
    }

    fn make_cache_key(id: &str) -> (r: String) {
        let mut s = String::from_str(tag_prefix(GroupTag::Items));
        s.append(id);
        s.append("!");
        s
    }
}

impl Page for ItemBase {
    open spec fn spec_id(&self) -> Seq<char> {
        self._id@
    }

    open spec fn spec_tag() -> GroupTag {
        GroupTag::Items
    }

    open spec fn spec_key(id: Seq<char>) -> Seq<char> {
        spec_tag_prefix(GroupTag::Items) + id + "@"@
    }

    fn id(&self) -> (r: &str) {
        self._id.as_str()
    }

    fn unique_cache_key_prefix() -> (r: GroupTag) {
        GroupTag::Items
    }

    fn make_cache_key(id: &str) -> (r: String) {
        let mut s = String::from_str(tag_prefix(GroupTag::Items));
        s.append(id);
        s.append("@");
        s
    }
}

impl Page for Task {
    open spec fn spec_id(&self) -> Seq<char> {
        self._id@
    }

    open spec fn spec_tag() -> GroupTag {
        GroupTag::Tasks
    }

    open spec fn spec_key(id: Seq<char>) -> Seq<char> {
        spec_tag_prefix(GroupTag::Tasks) + id + "#"@
    }

    fn id(&self) -> (r: &str) {
        self._id.as_str()
    }

    fn unique_cache_key_prefix() -> (r: GroupTag) {
        GroupTag::Tasks
    }

    fn make_cache_key(id: &str) -> (r: String) {
        let mut s = String::from_str(tag_prefix(GroupTag::Tasks));
        s.append(id);
        s.append("#");
        s
    }
}

impl Page for TaskBase {
    open spec fn spec_id(&self) -> Seq<char> {
        self._id@
    }

    open spec fn spec_tag() -> GroupTag {
        GroupTag::Tasks
    }

    open spec fn spec_key(id: Seq<char>) -> Seq<char> {
        spec_tag_prefix(GroupTag::Tasks) + id + "$"@
    }

    fn id(&self) -> (r: &str) {
        self._id.as_str()
    }

    fn unique_cache_key_prefix() -> (r: GroupTag) {
        GroupTag::Tasks
    }

    fn make_cache_key(id: &str) -> (r: String) {
        let mut s = String::from_str(tag_prefix(GroupTag::Tasks));
        s.append(id);
        s.append("$");
        s
    }
}

impl Page for Ammo {
    open spec fn spec_id(&self) -> Seq<char> {
        self.item_id@
    }

    open spec fn spec_tag() -> GroupTag {
        GroupTag::Ammo
    }

    open spec fn spec_key(id: Seq<char>) -> Seq<char> {
        spec_tag_prefix(GroupTag::Ammo) + id + "%"@
    }

    fn id(&self) -> (r: &str) {
        self.item_id.as_str()
    }

    fn unique_cache_key_prefix() -> (r: GroupTag) {
        GroupTag::Ammo
    }

    fn make_cache_key(id: &str) -> (r: String) {
        let mut s = String::from_str(tag_prefix(GroupTag::Ammo));
        s.append(id);
        s.append("%");
        s
    }
}

/// Whether the cache serves a `T` record for the id `id`.
pub open spec fn page_hit<T: Page>(m: CacheModel, id: Seq<char>) -> bool {
    spec_read::<T>(spec_get(m, T::spec_key(id))) is Some
}

/// Splits the requested ids into the records the cache already serves and
/// the ids that must be fetched from the relational store, each list in
/// request order.
pub fn split_cached<T: Page>(cache: &CacheStore, ids: &Vec<String>) -> (r: (Vec<T>, Vec<String>))
    requires
        cache.wf(),
    ensures
        r.1@ == ids@.filter(|id: String| !page_hit::<T>(cache.model(), id@)),
        r.0@.len() == ids@.filter(|id: String| page_hit::<T>(cache.model(), id@)).len(),
        forall|j: int|
            0 <= j < r.0@.len() ==> Some(#[trigger] r.0@[j].deep_view()) == spec_read::<T>(
                spec_get(
                    cache.model(),
                    T::spec_key(
                        ids@.filter(|id: String| page_hit::<T>(cache.model(), id@))[j]@,
                    ),
                ),
            ),
{
    let ghost hit = |id: String| page_hit::<T>(cache.model(), id@);
    let ghost miss = |id: String| !page_hit::<T>(cache.model(), id@);
    let mut found: Vec<T> = Vec::new();
    let mut missing: Vec<String> = Vec::new();
    let mut i: usize = 0;
    proof {
        assert(ids@.take(0).filter(miss) =~= Seq::<String>::empty());
        assert(ids@.take(0).filter(hit) =~= Seq::<String>::empty());
    }
    while i < ids.len()
        invariant
            i <= ids@.len(),
            cache.wf(),
            hit == (|id: String| page_hit::<T>(cache.model(), id@)),
            miss == (|id: String| !page_hit::<T>(cache.model(), id@)),
            missing@ == ids@.take(i as int).filter(miss),
            found@.len() == ids@.take(i as int).filter(hit).len(),
            forall|j: int|
                0 <= j < found@.len() ==> Some(#[trigger] found@[j].deep_view()) == spec_read::<T>(
                    spec_get(
                        cache.model(),
                        T::spec_key(ids@.take(i as int).filter(hit)[j]@),
                    ),
                ),
        decreases ids@.len() - i,
    {
        let key = T::make_cache_key(ids[i].as_str());
        let got: Option<T> = cache.get::<T>(&key);
        proof {
            assert(ids@.take(i + 1).drop_last() =~= ids@.take(i as int));
            assert(ids@.take(i + 1).last() == ids@[i as int]);
            reveal(Seq::filter);
        }
        match got {
            Some(v) => {
                proof {
                    assert(hit(ids@[i as int]));
                    assert(ids@.take(i + 1).filter(hit) =~= ids@.take(i as int).filter(hit).push(
                        ids@[i as int],
                    ));
                    assert(ids@.take(i + 1).filter(miss) =~= ids@.take(i as int).filter(miss));
                }
                found.push(v);
            },
            None => {
                proof {
                    assert(miss(ids@[i as int]));
                    assert(ids@.take(i + 1).filter(miss) =~= ids@.take(i as int).filter(miss).push(
                        ids@[i as int],
                    ));
                    assert(ids@.take(i + 1).filter(hit) =~= ids@.take(i as int).filter(hit));
                }
                missing.push(ids[i].clone());
            },
        }
        i = i + 1;
    }
    proof {
        assert(ids@.take(ids@.len() as int) =~= ids@);
    }
    (found, missing)
}

/// `str_lt_spec` is transitive, which is what keeps insertion into a
/// sorted run sorted.
pub proof fn lemma_str_lt_trans(a: Seq<char>, b: Seq<char>, c: Seq<char>)
    requires
        str_lt_spec(a, b),
        str_lt_spec(b, c),
    ensures
        str_lt_spec(a, c),
    decreases a.len(),
{
    if c.len() == 0 {
    } else if b.len() == 0 {
    } else if a.len() == 0 {
    } else {
        if a[0] != b[0] {
            if b[0] != c[0] {
                if a[0] == c[0] {
                    assert((a[0] as u32) < (b[0] as u32) && (b[0] as u32) < (c[0] as u32));
                }
            }
        } else {
            if b[0] != c[0] {
            } else {
                lemma_str_lt_trans(a.drop_first(), b.drop_first(), c.drop_first());
            }
        }
    }
}


/// No id is below itself.
pub proof fn lemma_str_lt_irrefl(a: Seq<char>)
    ensures
        !str_lt_spec(a, a),
    decreases a.len(),
{
    if a.len() > 0 {
        lemma_str_lt_irrefl(a.drop_first());
    }
}

/// Sorted in nondecreasing id order.
pub open spec fn sorted_by_id<T: Page>(s: Seq<T>) -> bool {
    forall|i: int, j: int|
        0 <= i < j < s.len() ==> !str_lt_spec(#[trigger] s[j].spec_id(), #[trigger] s[i].spec_id())
}


/// The first position whose record id exceeds `v`'s id; where insertion
/// keeps the run sorted.
fn find_insert_pos<T: Page>(out: &Vec<T>, v: &T) -> (k: usize)
    ensures
        k <= out@.len(),
        forall|w: int| 0 <= w < k ==> !str_lt_spec(v.spec_id(), #[trigger] out@[w].spec_id()),
        k < out@.len() ==> str_lt_spec(v.spec_id(), out@[k as int].spec_id()),
{
    let mut k: usize = 0;
    while k < out.len()
        invariant
            k <= out@.len(),
            forall|w: int| 0 <= w < k ==> !str_lt_spec(v.spec_id(), #[trigger] out@[w].spec_id()),
        decreases out@.len() - k,
    {
        let probe: &T = &out[k];
        if str_lt(v.id(), probe.id()) {
            return k;
        }
        k = k + 1;
    }
    k
}

/// Sorts records by id by repeated insertion; the result holds
/// exactly the input records.
pub fn sort_by_id<T: Page>(values: Vec<T>) -> (r: Vec<T>)
    ensures
        sorted_by_id::<T>(r@),
        r@.to_multiset() == values@.to_multiset(),
{
    let mut out: Vec<T> = Vec::new();
    let mut rest = values;
    proof {
        assert(out@.to_multiset() =~= Seq::<T>::empty().to_multiset());
        out@.to_multiset_ensures();
        rest@.to_multiset_ensures();
    }
    loop
        invariant_except_break
            sorted_by_id::<T>(out@),
            out@.to_multiset().add(rest@.to_multiset()) == values@.to_multiset(),
        ensures
            sorted_by_id::<T>(out@),
            rest@.len() == 0,
            out@.to_multiset().add(rest@.to_multiset()) == values@.to_multiset(),
        decreases rest@.len(),
    {
        let ghost rest0 = rest@;
        let popped = rest.pop();
        match popped {
            None => {
                break;
            },
            Some(v) => {
                proof {
                    rest@.to_multiset_ensures();
                    assert(rest0.drop_last() == rest@);
                    assert(rest0 =~= rest@.push(v));
                    assert(rest@.push(v).to_multiset() =~= rest@.to_multiset().insert(v));
                    assert(rest0.to_multiset() =~= rest@.to_multiset().insert(v));
                }
                let k = find_insert_pos(&out, &v);
                let ghost out0 = out@;
                out.insert(k, v);
                proof {
                    assert(out@ =~= out0.insert(k as int, v));
                    assert(sorted_by_id::<T>(out@)) by {
                        assert forall|i: int, j: int| 0 <= i < j < out@.len() implies !str_lt_spec(
                            #[trigger] out@[j].spec_id(),
                            #[trigger] out@[i].spec_id(),
                        ) by {
                            let vi = out@[i];
                            let vj = out@[j];
                            if i < k && j == k {
                            } else if i == k && j > k {
                                if str_lt_spec(vj.spec_id(), vi.spec_id()) {
                                    assert(vj == out0[j - 1]);
                                    assert(k < out0.len());
                                    if j - 1 == k {
                                        lemma_str_lt_irrefl(out0[k as int].spec_id());
                                    }
                                    assert(!str_lt_spec(
                                        out0[j - 1].spec_id(),
                                        out0[k as int].spec_id(),
                                    ));
                                    assert(str_lt_spec(v.spec_id(), out0[k as int].spec_id()));
                                    if str_lt_spec(vj.spec_id(), v.spec_id()) {
                                        lemma_str_lt_trans(
                                            vj.spec_id(),
                                            v.spec_id(),
                                            out0[k as int].spec_id(),
                                        );
                                    }
                                }
                            } else if i < k && j > k {
                                assert(vi == out0[i] && vj == out0[j - 1]);
                            } else if i > k && j > k {
                                assert(vi == out0[i - 1] && vj == out0[j - 1]);
                            } else if i < k && j < k {
                                assert(vi == out0[i] && vj == out0[j]);
                            }
                        }
                    }
                    assert(out@.to_multiset() =~= out0.to_multiset().insert(v)) by {
                        let a = out0.take(k as int);
                        let b = out0.skip(k as int);
                        assert(out@ =~= a.push(v) + b);
                        vstd::seq_lib::lemma_multiset_commutative(a.push(v), b);
                        a.to_multiset_ensures();
                        assert(a.push(v).to_multiset() =~= a.to_multiset().insert(v));
                        vstd::seq_lib::lemma_multiset_commutative(a, b);
                        assert(a + b =~= out0);
                        assert(out@.to_multiset() =~= a.to_multiset().insert(v).add(
                            b.to_multiset(),
                        ));
                        assert(a.to_multiset().insert(v).add(b.to_multiset()) =~= a.to_multiset()
                            .add(b.to_multiset()).insert(v));
                    }
                    assert(out@.to_multiset().add(rest@.to_multiset()) =~= values@.to_multiset());
                }
            },
        }
    }
    proof {
        assert(rest@.to_multiset() =~= Multiset::empty()) by {
            rest@.to_multiset_ensures();
        }
        assert(out@.to_multiset() =~= values@.to_multiset());
    }
    out
}

/// Iterated write-behind of fetched records, each under its own key.
pub open spec fn spec_insert_pages<T: Page>(m: CacheModel, vs: Seq<T>) -> CacheModel
    decreases vs.len(),
{
    if vs.len() == 0 {
        m
    } else {
        spec_insert(
            spec_insert_pages::<T>(m, vs.drop_last()),
            T::spec_key(vs.last().spec_id()),
            EntryModel::One(T::enc_of(vs.last().deep_view())),
            T::spec_tag(),
        )
    }
}

/// The merge half of the by-id read path: the records fetched for the
/// missed ids are written behind into the cache under their own keys, the
/// earlier cache hits are appended, and the whole result comes back
/// sorted by id.
pub fn fetch_tasks_by_ids<T: Page>(cache: &mut CacheStore, fetched: Vec<T>, found: Vec<T>) -> (r:
    Vec<T>)
    requires
        old(cache).wf(),
    ensures
        final(cache).wf(),
        final(cache).model() == spec_insert_pages::<T>(old(cache).model(), fetched@),
        sorted_by_id::<T>(r@),
        r@.to_multiset() == fetched@.to_multiset().add(found@.to_multiset()),
{
    let mut i: usize = 0;
    while i < fetched.len()
        invariant
            i <= fetched@.len(),
            cache.wf(),
            cache.model() == spec_insert_pages::<T>(old(cache).model(), fetched@.take(i as int)),
        decreases fetched@.len() - i,
    {
        let value: &T = &fetched[i];
        let key = T::make_cache_key(value.id());
        cache.insert::<T>(key, value, T::unique_cache_key_prefix());
        proof {
            assert(fetched@.take(i + 1).drop_last() =~= fetched@.take(i as int));
            assert(fetched@.take(i + 1).last() == fetched@[i as int]);
        }
        i = i + 1;
    }
    proof {
        assert(fetched@.take(fetched@.len() as int) =~= fetched@);
    }
    let mut merged = fetched;
    let mut f = found;
    let ghost merged0 = merged@;
    let ghost found0 = f@;
    while f.len() > 0
        invariant
            merged@.to_multiset().add(f@.to_multiset()) == merged0.to_multiset().add(
                found0.to_multiset(),
            ),
        decreases f@.len(),
    {
        let ghost f0 = f@;
        let ghost m0 = merged@;
        let popped = f.pop();
        match popped {
            None => {
                proof {
                    assert(false);
                }
            },
            Some(v) => {
                merged.push(v);
                proof {
                    f@.to_multiset_ensures();
                    m0.to_multiset_ensures();
                    assert(f0.drop_last() == f@);
                    assert(f0 =~= f@.push(v));
                    assert(f@.push(v).to_multiset() =~= f@.to_multiset().insert(v));
                    assert(f0.to_multiset() =~= f@.to_multiset().insert(v));
                    assert(merged@ =~= m0.push(v));
                    assert(m0.push(v).to_multiset() =~= m0.to_multiset().insert(v));
                    assert(merged@.to_multiset() =~= m0.to_multiset().insert(v));
                    assert(merged@.to_multiset().add(f@.to_multiset()) =~= m0.to_multiset().add(
                        f0.to_multiset(),
                    ));
                }
            },
        }
    }
    proof {
        assert(f@.to_multiset() =~= Multiset::empty()) by {
            f@.to_multiset_ensures();
        }
        assert(merged@.to_multiset() =~= merged0.to_multiset().add(found0.to_multiset()));
    }
    sort_by_id(merged)
}

} // verus!
