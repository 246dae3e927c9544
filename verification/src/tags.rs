//! Group tags: the small closed set of identifiers under which cache keys
//! are registered so that a whole dataset (or a derived view) can be
//! invalidated in bulk when its backing data refreshes.

use vstd::prelude::*;

verus! {

/// One tag per dataset, plus one for the derived "required items per
/// task filter" view, which joins the task and item datasets.
#[derive(Clone, Copy, PartialEq, Eq, Structural, Debug)]
pub enum GroupTag {
    Items,
    Tasks,
    Ammo,
    RequiredItemsView,
}

/// The datasets the background refresh driver re-pulls.
#[derive(Clone, Copy, PartialEq, Eq, Structural, Debug)]
pub enum Dataset {
    Items,
    Tasks,
    Ammo,
}

/// The tag a dataset's own cache entries are registered under.
pub fn dataset_tag(d: Dataset) -> (t: GroupTag)
    ensures
        t == spec_dataset_tag(d),
{
    match d {
        Dataset::Items => GroupTag::Items,
        Dataset::Tasks => GroupTag::Tasks,
        Dataset::Ammo => GroupTag::Ammo,
    }
}

pub open spec fn spec_dataset_tag(d: Dataset) -> GroupTag {
    match d {
        Dataset::Items => GroupTag::Items,
        Dataset::Tasks => GroupTag::Tasks,
        Dataset::Ammo => GroupTag::Ammo,
    }
}

/// Every tag the refresh driver must invalidate after dataset `d` was
/// re-persisted: the dataset's own tag and every derived view computed
/// from it.  The required-items view joins tasks and items, so either of
/// those datasets going stale invalidates it too.
pub fn tags_to_invalidate(d: Dataset) -> (ts: Vec<GroupTag>)
    ensures
        ts@ == spec_tags_to_invalidate(d),
{
    let mut ts: Vec<GroupTag> = Vec::new();
    ts.push(dataset_tag(d));
    match d {
        Dataset::Items => ts.push(GroupTag::RequiredItemsView),
        Dataset::Tasks => ts.push(GroupTag::RequiredItemsView),
        Dataset::Ammo => (),
    }
    proof {
        assert(ts@ =~= spec_tags_to_invalidate(d));
    }
    ts
}

pub open spec fn spec_tags_to_invalidate(d: Dataset) -> Seq<GroupTag> {
    match d {
        Dataset::Items => seq![GroupTag::Items, GroupTag::RequiredItemsView],
        Dataset::Tasks => seq![GroupTag::Tasks, GroupTag::RequiredItemsView],
        Dataset::Ammo => seq![GroupTag::Ammo],
    }
}

/// The short key prefix that makes each group's key space disjoint from
/// the others' ("namespace-qualified" keys).
pub fn tag_prefix(t: GroupTag) -> (p: &'static str)
    ensures
        p@ == spec_tag_prefix(t),
{
    proof {
        reveal_strlit("i");
        reveal_strlit("t");
        reveal_strlit("a");
        reveal_strlit("v");
    }
    match t {
        GroupTag::Items => "i",
        GroupTag::Tasks => "t",
        GroupTag::Ammo => "a",
        GroupTag::RequiredItemsView => "v",
    }
}

pub open spec fn spec_tag_prefix(t: GroupTag) -> Seq<char> {
    match t {
        GroupTag::Items => seq!['i'],
        GroupTag::Tasks => seq!['t'],
        GroupTag::Ammo => seq!['a'],
        GroupTag::RequiredItemsView => seq!['v'],
    }
}

} // verus!
