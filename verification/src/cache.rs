//! The typed cache store: an in-process map from string keys to encoded
//! values, with a secondary index from group tag to the keys inserted under
//! it, so that a whole dataset can be invalidated in bulk.  Values go in
//! through the serialization adapter and come out decode-on-read; a decode
//! or shape mismatch reads as a miss, never as an error.
//!
//! The surrounding process owns concurrency: it puts the store behind its
//! lock of choice and calls these operations one at a time.

use vstd::prelude::*;

use crate::codec::Encodable;
use crate::strutil::str_views;
use crate::tags::GroupTag;

verus! {

/// What one cache slot holds: one encoded value, or a list of encoded
/// values cached element by element.
#[derive(Clone, Debug)]
pub enum StoredValue {
    One(Vec<u8>),
    Many(Vec<Vec<u8>>),
}

/// The mathematical shape of a stored slot.
#[verifier::ext_equal]
pub enum EntryModel {
    One(Seq<u8>),
    Many(Seq<Seq<u8>>),
}

pub open spec fn entry_model(v: StoredValue) -> EntryModel {
    match v {
        StoredValue::One(b) => EntryModel::One(b@),
        StoredValue::Many(bs) => EntryModel::Many(bs.deep_view()),
    }
}

/// The whole store as mathematics: the live entries, and the key list of
/// each group.
#[verifier::ext_equal]
pub struct CacheModel {
    pub contents: Map<Seq<char>, EntryModel>,
    pub items_keys: Seq<Seq<char>>,
    pub tasks_keys: Seq<Seq<char>>,
    pub ammo_keys: Seq<Seq<char>>,
    pub view_keys: Seq<Seq<char>>,
}

pub open spec fn model_group_keys(m: CacheModel, t: GroupTag) -> Seq<Seq<char>> {
    match t {
        GroupTag::Items => m.items_keys,
        GroupTag::Tasks => m.tasks_keys,
        GroupTag::Ammo => m.ammo_keys,
        GroupTag::RequiredItemsView => m.view_keys,
    }
}

pub open spec fn spec_set_group(m: CacheModel, t: GroupTag, ks: Seq<Seq<char>>) -> CacheModel {
    match t {
        GroupTag::Items => CacheModel { items_keys: ks, ..m },
        GroupTag::Tasks => CacheModel { tasks_keys: ks, ..m },
        GroupTag::Ammo => CacheModel { ammo_keys: ks, ..m },
        GroupTag::RequiredItemsView => CacheModel { view_keys: ks, ..m },
    }
}

/// Inserting stores the entry under `k` and appends `k` to `t`'s key list.
pub open spec fn spec_insert(m: CacheModel, k: Seq<char>, e: EntryModel, t: GroupTag) -> CacheModel {
    spec_set_group(
        CacheModel { contents: m.contents.insert(k, e), ..m },
        t,
        model_group_keys(m, t).push(k),
    )
}

/// Invalidating a group removes every entry whose key is listed under it,
/// then clears the group's key list.
pub open spec fn spec_invalidate(m: CacheModel, t: GroupTag) -> CacheModel {
    spec_set_group(
        CacheModel { contents: m.contents.remove_keys(model_group_keys(m, t).to_set()), ..m },
        t,
        Seq::empty(),
    )
}

/// What a read of `k` observes.
pub open spec fn spec_get(m: CacheModel, k: Seq<char>) -> Option<EntryModel> {
    if m.contents.dom().contains(k) {
        Some(m.contents[k])
    } else {
        None
    }
}

pub open spec fn empty_model() -> CacheModel {
    CacheModel {
        contents: Map::empty(),
        items_keys: Seq::empty(),
        tasks_keys: Seq::empty(),
        ammo_keys: Seq::empty(),
        view_keys: Seq::empty(),
    }
}

/// What a typed single-value read makes of a slot: the decoded value, when
/// the slot holds one value whose bytes decode completely.
pub open spec fn spec_read<T: Encodable>(e: Option<EntryModel>) -> Option<<T as DeepView>::V> {
    match e {
        Some(EntryModel::One(bytes)) => match T::dec_at(bytes, 0) {
            Some((w, p)) => if p == bytes.len() {
                Some(w)
            } else {
                None
            },
            None => None,
        },
        _ => None,
    }
}

/// Element-wise decoding of a stored list; any element failing to decode
/// completely fails the whole read.
pub open spec fn dec_many<T: Encodable>(ss: Seq<Seq<u8>>) -> Option<Seq<<T as DeepView>::V>>
    decreases ss.len(),
{
    if ss.len() == 0 {
        Some(Seq::empty())
    } else {
        match dec_many::<T>(ss.drop_last()) {
            None => None,
            Some(vs) => match T::dec_at(ss.last(), 0) {
                Some((w, p)) => if p == ss.last().len() {
                    Some(vs.push(w))
                } else {
                    None
                },
                None => None,
            },
        }
    }
}

/// What a typed list read makes of a slot.
pub open spec fn spec_read_vec<T: Encodable>(e: Option<EntryModel>) -> Option<
    Seq<<T as DeepView>::V>,
> {
    match e {
        Some(EntryModel::Many(ss)) => dec_many::<T>(ss),
        _ => None,
    }
}

/// The encodings of the elements of `vs`, one slot list entry each.
pub open spec fn enc_list<T: Encodable>(vs: Seq<<T as DeepView>::V>) -> Seq<Seq<u8>> {
    vs.map_values(|v: <T as DeepView>::V| T::enc_of(v))
}

pub open spec fn has_key_s(s: Seq<(String, StoredValue)>, k: Seq<char>) -> bool {
    exists|i: int| 0 <= i < s.len() && s[i].0@ == k
}

pub open spec fn idx_of(s: Seq<(String, StoredValue)>, k: Seq<char>) -> int {
    choose|i: int| 0 <= i < s.len() && s[i].0@ == k
}

pub open spec fn unique_keys(s: Seq<(String, StoredValue)>) -> bool {
    forall|i: int, j: int| 0 <= i < j < s.len() ==> s[i].0@ != s[j].0@
}

pub open spec fn entries_contents(s: Seq<(String, StoredValue)>) -> Map<Seq<char>, EntryModel> {
    Map::new(|k: Seq<char>| has_key_s(s, k), |k: Seq<char>| entry_model(s[idx_of(s, k)].1))
}

/// With unique keys, the chosen index of an existing key is that key's
/// position.
proof fn lemma_idx_unique(s: Seq<(String, StoredValue)>, i: int)
    requires
        unique_keys(s),
        0 <= i < s.len(),
    ensures
        idx_of(s, s[i].0@) == i,
{
    let k = s[i].0@;
    assert(has_key_s(s, k));
    let j = idx_of(s, k);
    assert(0 <= j < s.len() && s[j].0@ == k);
    if j < i {
        assert(s[j].0@ != s[i].0@);
    } else if i < j {
        assert(s[i].0@ != s[j].0@);
    }
}

/// Appending a fresh key adds exactly that entry to the contents.
proof fn lemma_push_entry(s: Seq<(String, StoredValue)>, key: String, v: StoredValue)
    requires
        unique_keys(s),
        !has_key_s(s, key@),
    ensures
        unique_keys(s.push((key, v))),
        entries_contents(s.push((key, v))) == entries_contents(s).insert(key@, entry_model(v)),
{
    let s2 = s.push((key, v));
    assert forall|i: int, j: int| 0 <= i < j < s2.len() implies s2[i].0@ != s2[j].0@ by {
        if j < s.len() {
            assert(s2[i].0@ == s[i].0@ && s2[j].0@ == s[j].0@);
        } else {
            assert(s2[j].0@ == key@);
            assert(s2[i].0@ == s[i].0@);
            assert(!(s[i].0@ == key@));
        }
    }
    let lhs = entries_contents(s2);
    let rhs = entries_contents(s).insert(key@, entry_model(v));
    assert forall|k: Seq<char>| lhs.dom().contains(k) <==> rhs.dom().contains(k) by {
        if k == key@ {
            assert(s2[s.len() as int].0@ == k);
            assert(has_key_s(s2, k));
        } else {
            if has_key_s(s2, k) {
                let i = choose|i: int| 0 <= i < s2.len() && s2[i].0@ == k;
                assert(i < s.len());
                assert(s[i].0@ == k);
                assert(has_key_s(s, k));
            }
            if has_key_s(s, k) {
                let i = choose|i: int| 0 <= i < s.len() && s[i].0@ == k;
                assert(s2[i].0@ == k);
                assert(has_key_s(s2, k));
            }
        }
    }
    assert forall|k: Seq<char>| lhs.dom().contains(k) implies lhs[k] == rhs[k] by {
        if k == key@ {
            lemma_idx_unique(s2, s.len() as int);
            assert(lhs[k] == entry_model(v));
        } else {
            let i = idx_of(s2, k);
            assert(0 <= i < s2.len() && s2[i].0@ == k);
            assert(i < s.len());
            lemma_idx_unique(s2, i);
            assert(s[i].0@ == k);
            lemma_idx_unique(s, i);
            assert(rhs[k] == entry_model(s[i].1));
        }
    }
    assert(lhs =~= rhs);
}

/// Removing the entry at a position removes exactly its key.
proof fn lemma_remove_entry(s: Seq<(String, StoredValue)>, i: int)
    requires
        unique_keys(s),
        0 <= i < s.len(),
    ensures
        unique_keys(s.remove(i)),
        entries_contents(s.remove(i)) == entries_contents(s).remove(s[i].0@),
{
    let k0 = s[i].0@;
    let s2 = s.remove(i);
    assert forall|a: int, b: int| 0 <= a < b < s2.len() implies s2[a].0@ != s2[b].0@ by {
        let a0 = if a < i {
            a
        } else {
            a + 1
        };
        let b0 = if b < i {
            b
        } else {
            b + 1
        };
        assert(s2[a] == s[a0] && s2[b] == s[b0]);
        assert(s[a0].0@ != s[b0].0@);
    }
    let lhs = entries_contents(s2);
    let rhs = entries_contents(s).remove(k0);
    assert forall|k: Seq<char>| lhs.dom().contains(k) <==> rhs.dom().contains(k) by {
        if has_key_s(s2, k) {
            let j = choose|j: int| 0 <= j < s2.len() && s2[j].0@ == k;
            let j0 = if j < i {
                j
            } else {
                j + 1
            };
            assert(s[j0].0@ == k);
            assert(has_key_s(s, k));
            if k == k0 {
                if j0 < i {
                    assert(s[j0].0@ != s[i].0@);
                } else {
                    assert(s[i].0@ != s[j0].0@);
                }
            }
        }
        if has_key_s(s, k) && k != k0 {
            let j = choose|j: int| 0 <= j < s.len() && s[j].0@ == k;
            assert(j != i);
            let j2 = if j < i {
                j
            } else {
                j - 1
            };
            assert(s2[j2] == s[j]);
            assert(has_key_s(s2, k));
        }
    }
    assert forall|k: Seq<char>| lhs.dom().contains(k) implies lhs[k] == rhs[k] by {
        let j = idx_of(s2, k);
        assert(0 <= j < s2.len() && s2[j].0@ == k);
        let j0 = if j < i {
            j
        } else {
            j + 1
        };
        assert(s2[j] == s[j0]);
        lemma_idx_unique(s2, j);
        lemma_idx_unique(s, j0);
    }
    assert(lhs =~= rhs);
}

/// The typed cache store.  All reads and writes go through the typed
/// operations below; the model functions say what each one does.
pub struct CacheStore {
    entries: Vec<(String, StoredValue)>,
    items_keys: Vec<String>,
    tasks_keys: Vec<String>,
    ammo_keys: Vec<String>,
    view_keys: Vec<String>,
}

impl CacheStore {
    /// Entry keys are unique, so each key denotes at most one live entry.
    pub closed spec fn wf(&self) -> bool {
        unique_keys(self.entries@)
    }

    pub closed spec fn model(&self) -> CacheModel {
        CacheModel {
            contents: entries_contents(self.entries@),
            items_keys: str_views(self.items_keys@),
            tasks_keys: str_views(self.tasks_keys@),
            ammo_keys: str_views(self.ammo_keys@),
            view_keys: str_views(self.view_keys@),
        }
    }

    pub fn new() -> (r: CacheStore)
        ensures
            r.wf(),
            r.model() == empty_model(),
    {
        let r = CacheStore {
            entries: Vec::new(),
            items_keys: Vec::new(),
            tasks_keys: Vec::new(),
            ammo_keys: Vec::new(),
            view_keys: Vec::new(),
        };
        proof {
            assert(entries_contents(r.entries@) =~= Map::<Seq<char>, EntryModel>::empty());
            assert(str_views(r.items_keys@) =~= Seq::<Seq<char>>::empty());
            assert(str_views(r.tasks_keys@) =~= Seq::<Seq<char>>::empty());
            assert(str_views(r.ammo_keys@) =~= Seq::<Seq<char>>::empty());
            assert(str_views(r.view_keys@) =~= Seq::<Seq<char>>::empty());
            assert(r.model() =~= empty_model());
        }
        r
    }

    fn find_index(&self, key: &String) -> (r: Option<usize>)
        ensures
            match r {
                Some(i) => i < self.entries@.len() && self.entries@[i as int].0@ == key@,
                None => !has_key_s(self.entries@, key@),
            },
    {
        let mut i: usize = 0;
        while i < self.entries.len()
            invariant
                i <= self.entries@.len(),
                forall|j: int| 0 <= j < i ==> self.entries@[j].0@ != key@,
            decreases self.entries@.len() - i,
        {
            let pair: &(String, StoredValue) = &self.entries[i];
            if pair.0.eq(key) {
                return Some(i);
            }
            i = i + 1;
        }
        None
    }

    /// Stores `v` under `key` and registers `key` under `tag`.
    fn insert_raw(&mut self, key: String, v: StoredValue, tag: GroupTag)
        requires
            old(self).wf(),
        ensures
            final(self).wf(),
            final(self).model() == spec_insert(old(self).model(), key@, entry_model(v), tag),
    {
        let ghost m0 = self.model();
        match self.find_index(&key) {
            Some(i) => {
                proof {
                    lemma_remove_entry(self.entries@, i as int);
                }
                let _ = self.entries.remove(i);
            },
            None => {},
        }
        proof {
            assert(!has_key_s(self.entries@, key@)) by {
                if has_key_s(self.entries@, key@) {
                    let j = choose|j: int|
                        0 <= j < self.entries@.len() && self.entries@[j].0@ == key@;
                    assert(has_key_s(old(self).entries@, key@) || true);
                }
            }
        }
        let kclone = key.clone();
        proof {
            lemma_push_entry(self.entries@, key, v);
        }
        self.entries.push((key, v));
        match tag {
            GroupTag::Items => self.items_keys.push(kclone),
            GroupTag::Tasks => self.tasks_keys.push(kclone),
            GroupTag::Ammo => self.ammo_keys.push(kclone),
            GroupTag::RequiredItemsView => self.view_keys.push(kclone),
        }
        proof {
            assert(entries_contents(self.entries@) =~= m0.contents.insert(key@, entry_model(v)));
            match tag {
                GroupTag::Items => {
                    assert(str_views(self.items_keys@) =~= m0.items_keys.push(key@));
                },
                GroupTag::Tasks => {
                    assert(str_views(self.tasks_keys@) =~= m0.tasks_keys.push(key@));
                },
                GroupTag::Ammo => {
                    assert(str_views(self.ammo_keys@) =~= m0.ammo_keys.push(key@));
                },
                GroupTag::RequiredItemsView => {
                    assert(str_views(self.view_keys@) =~= m0.view_keys.push(key@));
                },
            }
            assert(final(self).model() =~= spec_insert(m0, key@, entry_model(v), tag));
        }
    }

    /// Encodes `value` and stores it under `key` in group `tag`.
    pub fn insert<T: Encodable>(&mut self, key: String, value: &T, tag: GroupTag)
        requires
            old(self).wf(),
        ensures
            final(self).wf(),
            final(self).model() == spec_insert(
                old(self).model(),
                key@,
                EntryModel::One(T::enc_of(value.deep_view())),
                tag,
            ),
            T::enc_wf(value.deep_view()),
    {
        let mut out: Vec<u8> = Vec::new();
        value.encode(&mut out);
        proof {
            assert(out@ =~= T::enc_of(value.deep_view()));
        }
        self.insert_raw(key, StoredValue::One(out), tag);
    }

    /// Encodes the elements of `values` one by one and stores the list
    /// under `key` in group `tag`.
    pub fn insert_vec<T: Encodable>(&mut self, key: String, values: &Vec<T>, tag: GroupTag)
        requires
            old(self).wf(),
        ensures
            final(self).wf(),
            final(self).model() == spec_insert(
                old(self).model(),
                key@,
                EntryModel::Many(enc_list::<T>(values.deep_view())),
                tag,
            ),
            forall|i: int|
                0 <= i < values.deep_view().len() ==> T::enc_wf(#[trigger] values.deep_view()[i]),
    {
        let mut slots: Vec<Vec<u8>> = Vec::new();
        let mut i: usize = 0;
        while i < values.len()
            invariant
                i <= values@.len(),
                slots.deep_view() =~= enc_list::<T>(values.deep_view().take(i as int)),
                forall|j: int|
                    0 <= j < i ==> T::enc_wf(#[trigger] values.deep_view()[j]),
            decreases values@.len() - i,
        {
            let mut out: Vec<u8> = Vec::new();
            values[i].encode(&mut out);
            let ghost slots0 = slots.deep_view();
            slots.push(out);
            proof {
                assert(values.deep_view()[i as int] == values@[i as int].deep_view());
                assert(out@ =~= T::enc_of(values.deep_view()[i as int]));
                assert(out.deep_view() =~= out@);
                assert(slots.deep_view() =~= slots0.push(out@));
                assert(values.deep_view().take(i + 1) =~= values.deep_view().take(i as int).push(
                    values.deep_view()[i as int],
                ));
                assert(enc_list::<T>(values.deep_view().take(i + 1)) =~= enc_list::<T>(
                    values.deep_view().take(i as int),
                ).push(T::enc_of(values.deep_view()[i as int])));
                assert(slots.deep_view() =~= enc_list::<T>(values.deep_view().take(i + 1)));
            }
            i = i + 1;
        }
        proof {
            assert(values.deep_view().take(values@.len() as int) =~= values.deep_view());
        }
        self.insert_raw(key, StoredValue::Many(slots), tag);
    }

    /// Decode-on-read of a single value; a missing key or a mismatched
    /// shape reads as `None`.
    pub fn get<T: Encodable>(&self, key: &String) -> (r: Option<T>)
        requires
            self.wf(),
        ensures
            match r {
                Some(v) => spec_read::<T>(spec_get(self.model(), key@)) == Some(v.deep_view()),
                None => spec_read::<T>(spec_get(self.model(), key@)) is None,
            },
    {
        match self.find_index(key) {
            None => None,
            Some(i) => {
                proof {
                    lemma_idx_unique(self.entries@, i as int);
                }
                let pair: &(String, StoredValue) = &self.entries[i];
                match &pair.1 {
                    StoredValue::Many(_) => None,
                    StoredValue::One(bytes) => {
                        match T::decode(bytes, 0) {
                            None => None,
                            Some((v, p)) => {
                                if p == bytes.len() {
                                    Some(v)
                                } else {
                                    None
                                }
                            },
                        }
                    },
                }
            },
        }
    }

    /// Decode-on-read of a stored list; any undecodable element reads as a
    /// miss for the whole key.
    pub fn get_vec<T: Encodable>(&self, key: &String) -> (r: Option<Vec<T>>)
        requires
            self.wf(),
        ensures
            match r {
                Some(vs) => spec_read_vec::<T>(spec_get(self.model(), key@)) == Some(
                    vs.deep_view(),
                ),
                None => spec_read_vec::<T>(spec_get(self.model(), key@)) is None,
            },
    {
        match self.find_index(key) {
            None => None,
            Some(i) => {
                proof {
                    lemma_idx_unique(self.entries@, i as int);
                }
                let pair: &(String, StoredValue) = &self.entries[i];
                match &pair.1 {
                    StoredValue::One(_) => None,
                    StoredValue::Many(slots) => {
                        let ghost ss = slots.deep_view();
                        let mut acc: Vec<T> = Vec::new();
                        let mut j: usize = 0;
                        proof {
                            assert(dec_many::<T>(ss.take(0)) == Some(
                                Seq::<<T as DeepView>::V>::empty(),
                            )) by {
                                assert(ss.take(0).len() == 0);
                            }
                            assert(acc.deep_view() =~= Seq::<<T as DeepView>::V>::empty());
                        }
                        proof {
                            assert(spec_get(self.model(), key@) == Some(EntryModel::Many(ss)));
                        }
                        while j < slots.len()
                            invariant
                                j <= slots@.len(),
                                ss == slots.deep_view(),
                                self.wf(),
                                spec_get(self.model(), key@) == Some(EntryModel::Many(ss)),
                                dec_many::<T>(ss.take(j as int)) == Some(acc.deep_view()),
                            decreases slots@.len() - j,
                        {
                            let slot: &Vec<u8> = &slots[j];
                            let r = T::decode(slot, 0);
                            proof {
                                assert(ss.take(j + 1).drop_last() =~= ss.take(j as int));
                                assert(ss.take(j + 1).last() == ss[j as int]);
                                assert(ss[j as int] == slots@[j as int]@);
                            }
                            match r {
                                None => {
                                    proof {
                                        lemma_dec_many_prefix_none::<T>(ss, j as int);
                                    }
                                    return None;
                                },
                                Some((v, p)) => {
                                    if p != slot.len() {
                                        proof {
                                            lemma_dec_many_prefix_none::<T>(ss, j as int);
                                        }
                                        return None;
                                    }
                                    let ghost acc0 = acc.deep_view();
                                    acc.push(v);
                                    proof {
                                        assert(acc.deep_view() =~= acc0.push(v.deep_view()));
                                        assert(dec_many::<T>(ss.take(j + 1)) == Some(
                                            acc.deep_view(),
                                        ));
                                    }
                                },
                            }
                            j = j + 1;
                        }
                        proof {
                            assert(ss.take(slots@.len() as int) =~= ss);
                        }
                        Some(acc)
                    },
                }
            },
        }
    }

    /// Removes every entry whose key was registered under `tag`, then
    /// clears the tag's key list.
    pub fn invalidate_cache_prefix(&mut self, tag: GroupTag)
        requires
            old(self).wf(),
        ensures
            final(self).wf(),
            final(self).model() == spec_invalidate(old(self).model(), tag),
    {
        let ghost m0 = self.model();
        let mut ks: Vec<String> = Vec::new();
        match tag {
            GroupTag::Items => core::mem::swap(&mut self.items_keys, &mut ks),
            GroupTag::Tasks => core::mem::swap(&mut self.tasks_keys, &mut ks),
            GroupTag::Ammo => core::mem::swap(&mut self.ammo_keys, &mut ks),
            GroupTag::RequiredItemsView => core::mem::swap(&mut self.view_keys, &mut ks),
        }
        proof {
            assert(str_views(Seq::<String>::empty()) =~= Seq::<Seq<char>>::empty());
        }
        let mut i: usize = 0;
        proof {
            assert(entries_contents(self.entries@) =~= m0.contents.remove_keys(
                str_views(ks@).take(0).to_set(),
            )) by {
                assert(str_views(ks@).take(0).to_set() =~= Set::<Seq<char>>::empty());
            }
        }
        while i < ks.len()
            invariant
                i <= ks@.len(),
                unique_keys(self.entries@),
                entries_contents(self.entries@) == m0.contents.remove_keys(
                    str_views(ks@).take(i as int).to_set(),
                ),
                str_views(self.items_keys@) == model_group_keys(
                    spec_set_group(m0, tag, Seq::empty()),
                    GroupTag::Items,
                ),
                str_views(self.tasks_keys@) == model_group_keys(
                    spec_set_group(m0, tag, Seq::empty()),
                    GroupTag::Tasks,
                ),
                str_views(self.ammo_keys@) == model_group_keys(
                    spec_set_group(m0, tag, Seq::empty()),
                    GroupTag::Ammo,
                ),
                str_views(self.view_keys@) == model_group_keys(
                    spec_set_group(m0, tag, Seq::empty()),
                    GroupTag::RequiredItemsView,
                ),
            decreases ks@.len() - i,
        {
            let ghost before = entries_contents(self.entries@);
            let k: &String = &ks[i];
            match self.find_index(k) {
                Some(j) => {
                    proof {
                        lemma_remove_entry(self.entries@, j as int);
                        lemma_idx_unique(self.entries@, j as int);
                    }
                    let _ = self.entries.remove(j);
                },
                None => {},
            }
            proof {
                assert(str_views(ks@).take(i + 1).to_set() =~= str_views(ks@).take(
                    i as int,
                ).to_set().insert(ks@[i as int]@)) by {
                    let a = str_views(ks@).take(i + 1);
                    let b = str_views(ks@).take(i as int);
                    assert(a.drop_last() =~= b);
                    assert(a.last() == ks@[i as int]@);
                    assert forall|x: Seq<char>| a.to_set().contains(x) implies b.to_set().insert(
                        ks@[i as int]@,
                    ).contains(x) by {
                        let w = choose|w: int| 0 <= w < a.len() && a[w] == x;
                        if w < b.len() {
                            assert(b[w] == x);
                        }
                    }
                    assert forall|x: Seq<char>|
                        b.to_set().insert(ks@[i as int]@).contains(x) implies a.to_set().contains(
                        x,
                    ) by {
                        if b.to_set().contains(x) {
                            let w = choose|w: int| 0 <= w < b.len() && b[w] == x;
                            assert(a[w] == x);
                        } else {
                            assert(a[a.len() - 1] == x);
                        }
                    }
                }
                assert(entries_contents(self.entries@) =~= m0.contents.remove_keys(
                    str_views(ks@).take(i + 1).to_set(),
                ));
            }
            i = i + 1;
        }
        proof {
            assert(str_views(ks@).take(ks@.len() as int) =~= str_views(ks@));
            assert(final(self).model() =~= spec_invalidate(m0, tag));
        }
    }
}

/// If one slot of `ss` fails to decode, the whole stored list reads as a
/// miss.
proof fn lemma_dec_many_prefix_none<T: Encodable>(ss: Seq<Seq<u8>>, j: int)
    requires
        0 <= j < ss.len(),
        match T::dec_at(ss[j], 0) {
            Some((w, p)) => p != ss[j].len(),
            None => true,
        },
    ensures
        dec_many::<T>(ss) is None,
    decreases ss.len(),
{
    if ss.len() == 0 {
    } else if j == ss.len() - 1 {
        assert(ss.last() == ss[j]);
    } else {
        assert(ss.drop_last()[j] == ss[j]);
        lemma_dec_many_prefix_none::<T>(ss.drop_last(), j);
    }
}


/// Idempotent invalidation: invalidating a group twice in a row leaves the
/// cache in the same state as invalidating it once, since the first pass
/// already emptied the group's key list.
pub proof fn lemma_invalidate_idempotent(m: CacheModel, t: GroupTag)
    ensures
        spec_invalidate(spec_invalidate(m, t), t) == spec_invalidate(m, t),
{
    let m1 = spec_invalidate(m, t);
    assert(model_group_keys(m1, t) =~= Seq::<Seq<char>>::empty());
    assert(Seq::<Seq<char>>::empty().to_set() =~= Set::<Seq<char>>::empty());
    assert(m1.contents.remove_keys(Set::<Seq<char>>::empty()) =~= m1.contents);
    assert(spec_invalidate(m1, t) =~= m1);
}

/// Group isolation: an entry inserted under group `a` survives an
/// invalidation of a different group `b`, as long as its key was not also
/// registered under `b` by some earlier insert.
pub proof fn lemma_group_isolation(
    m: CacheModel,
    k: Seq<char>,
    e: EntryModel,
    a: GroupTag,
    b: GroupTag,
)
    requires
        a != b,
        !model_group_keys(m, b).to_set().contains(k),
    ensures
        spec_get(spec_invalidate(spec_insert(m, k, e, a), b), k) == Some(e),
{
    let m1 = spec_insert(m, k, e, a);
    assert(model_group_keys(m1, b) == model_group_keys(m, b));
    assert(m1.contents[k] == e);
    let m2 = spec_invalidate(m1, b);
    assert(m2.contents.dom().contains(k));
    assert(m2.contents[k] == e);
}

/// Write-behind read correctness, single value: a value inserted after a
/// miss is exactly what the next read of that key decodes.
pub proof fn lemma_write_behind_read<T: Encodable>(
    m: CacheModel,
    k: Seq<char>,
    v: <T as DeepView>::V,
    t: GroupTag,
)
    requires
        T::enc_wf(v),
    ensures
        spec_read::<T>(spec_get(spec_insert(m, k, EntryModel::One(T::enc_of(v)), t), k)) == Some(v),
{
    let bytes = T::enc_of(v);
    assert(bytes.subrange(0, bytes.len() as int) =~= bytes);
    T::lemma_enc_dec(v, bytes, 0);
}

/// The stored encodings of a list decode back to exactly that list.
pub proof fn lemma_dec_many_enc_list<T: Encodable>(vs: Seq<<T as DeepView>::V>)
    requires
        forall|i: int| 0 <= i < vs.len() ==> T::enc_wf(#[trigger] vs[i]),
    ensures
        dec_many::<T>(enc_list::<T>(vs)) == Some(vs),
    decreases vs.len(),
{
    let ss = enc_list::<T>(vs);
    if vs.len() == 0 {
        assert(ss.len() == 0);
    } else {
        assert(ss.drop_last() =~= enc_list::<T>(vs.drop_last()));
        lemma_dec_many_enc_list::<T>(vs.drop_last());
        let lastv = vs.last();
        let bytes = T::enc_of(lastv);
        assert(ss.last() == bytes);
        assert(bytes.subrange(0, bytes.len() as int) =~= bytes);
        T::lemma_enc_dec(lastv, bytes, 0);
        assert(vs.drop_last().push(lastv) =~= vs);
    }
}

/// Write-behind read correctness, list value: a vector inserted after a
/// miss is exactly what the next list read of that key decodes.
pub proof fn lemma_write_behind_read_vec<T: Encodable>(
    m: CacheModel,
    k: Seq<char>,
    vs: Seq<<T as DeepView>::V>,
    t: GroupTag,
)
    requires
        forall|i: int| 0 <= i < vs.len() ==> T::enc_wf(#[trigger] vs[i]),
    ensures
        spec_read_vec::<T>(spec_get(spec_insert(m, k, EntryModel::Many(enc_list::<T>(vs)), t), k))
            == Some(vs),
{
    lemma_dec_many_enc_list::<T>(vs);
}

/// Determinism under concurrent duplicate misses: two racers that computed
/// the same value write the same entry, so whichever insert lands last the
/// key reads the same, and a second identical insert only re-registers the
/// key under the same tag.
pub proof fn lemma_duplicate_miss_last_write(
    m: CacheModel,
    k: Seq<char>,
    e: EntryModel,
    t: GroupTag,
)
    ensures
        spec_get(spec_insert(spec_insert(m, k, e, t), k, e, t), k) == spec_get(
            spec_insert(m, k, e, t),
            k,
        ),
        spec_insert(spec_insert(m, k, e, t), k, e, t).contents == spec_insert(
            m,
            k,
            e,
            t,
        ).contents,
{
    let m1 = spec_insert(m, k, e, t);
    let m2 = spec_insert(m1, k, e, t);
    assert(m2.contents =~= m1.contents);
}

} // verus!
