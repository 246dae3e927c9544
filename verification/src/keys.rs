//! Cache keys for the listing read paths: each key is computed from the
//! full normalized parameter set, prefixed by its group's namespace, so
//! that equal requests share an entry and group invalidation reaches every
//! derived key.

use vstd::prelude::*;

use crate::query::{AmmoQueryParams, ItemQueryParams, TaskQueryParams};
use crate::strutil::{dec_rep, i64_dec, spec_i64_dec, u64_dec};
use crate::tags::{spec_tag_prefix, tag_prefix, GroupTag};

verus! {

pub open spec fn spec_flag(b: bool) -> Seq<char> {
    if b {
        "1"@
    } else {
        "0"@
    }
}

/// The one-character form of a boolean inside a key.
pub fn flag_str(b: bool) -> (r: &'static str)
    ensures
        r@ == spec_flag(b),
{
    if b {
        "1"
    } else {
        "0"
    }
}

/// Item listings above this page size are clamped.
pub fn clamp_limit(limit: u32) -> (r: u32)
    ensures
        r == if limit < 500 {
            limit as int
        } else {
            500
        },
{
    if limit < 500 {
        limit
    } else {
        500
    }
}

pub open spec fn spec_item_list_key(p: ItemQueryParams) -> Seq<char> {
    spec_tag_prefix(GroupTag::Items) + spec_flag(p.sort_asc) + p.sort_by@ + dec_rep(
        p.limit as nat,
    ) + p.item_type@ + dec_rep(p.offset as nat) + p.search@
}

/// The key an item listing is cached under.
pub fn item_list_cache_key(p: &ItemQueryParams) -> (r: String)
    ensures
        r@ == spec_item_list_key(*p),
{
    let mut s = String::from_str(tag_prefix(GroupTag::Items));
    s.append(flag_str(p.sort_asc));
    s.append(p.sort_by.as_str());
    let limit = u64_dec(p.limit as u64);
    s.append(limit.as_str());
    s.append(p.item_type.as_str());
    let offset = u64_dec(p.offset as u64);
    s.append(offset.as_str());
    s.append(p.search.as_str());
    s
}

pub open spec fn spec_task_list_key(p: TaskQueryParams, base: bool) -> Seq<char> {
    spec_tag_prefix(GroupTag::Tasks) + (if base {
        "b"@
    } else {
        Seq::empty()
    }) + spec_flag(p.is_kappa) + spec_flag(p.is_lightkeeper) + p.obj_type@ + dec_rep(
        p.player_lvl as nat,
    ) + p.trader@ + "l"@ + dec_rep(p.limit as nat) + "o"@ + dec_rep(p.offset as nat) + p.search@
}

/// The key a task listing is cached under; `base` marks the reduced
/// id-and-name listing, which must not share keys with the full one.
pub fn task_list_cache_key(p: &TaskQueryParams, base: bool) -> (r: String)
    ensures
        r@ == spec_task_list_key(*p, base),
{
    let mut s = String::from_str(tag_prefix(GroupTag::Tasks));
    if base {
        s.append("b");
    } else {
        proof {
            assert(spec_tag_prefix(GroupTag::Tasks) + Seq::<char>::empty() =~= spec_tag_prefix(
                GroupTag::Tasks,
            ));
        }
    }
    s.append(flag_str(p.is_kappa));
    s.append(flag_str(p.is_lightkeeper));
    s.append(p.obj_type.as_str());
    let lvl = u64_dec(p.player_lvl as u64);
    s.append(lvl.as_str());
    s.append(p.trader.as_str());
    s.append("l");
    let limit = u64_dec(p.limit as u64);
    s.append(limit.as_str());
    s.append("o");
    let offset = u64_dec(p.offset as u64);
    s.append(offset.as_str());
    s.append(p.search.as_str());
    s
}

pub open spec fn spec_required_items_key(p: TaskQueryParams, counts: bool) -> Seq<char> {
    spec_tag_prefix(GroupTag::RequiredItemsView) + (if counts {
        "c"@
    } else {
        "i"@
    }) + spec_flag(p.is_kappa) + spec_flag(p.is_lightkeeper) + p.obj_type@ + dec_rep(
        p.player_lvl as nat,
    ) + p.trader@ + p.search@
}

/// The two keys of the required-items derived view: one for the grouped
/// counts, one for the matching items.
pub fn required_items_cache_keys(p: &TaskQueryParams) -> (r: (String, String))
    ensures
        r.0@ == spec_required_items_key(*p, true),
        r.1@ == spec_required_items_key(*p, false),
{
    let mut c = String::from_str(tag_prefix(GroupTag::RequiredItemsView));
    c.append("c");
    let mut i = String::from_str(tag_prefix(GroupTag::RequiredItemsView));
    i.append("i");
    let mut tail = String::new();
    tail.append(flag_str(p.is_kappa));
    tail.append(flag_str(p.is_lightkeeper));
    tail.append(p.obj_type.as_str());
    let lvl = u64_dec(p.player_lvl as u64);
    tail.append(lvl.as_str());
    tail.append(p.trader.as_str());
    tail.append(p.search.as_str());
    c.append(tail.as_str());
    i.append(tail.as_str());
    proof {
        assert(c@ =~= spec_required_items_key(*p, true));
        assert(i@ =~= spec_required_items_key(*p, false));
    }
    (c, i)
}

pub open spec fn spec_item_history_key(id: Seq<char>) -> Seq<char> {
    spec_tag_prefix(GroupTag::Items) + id + "-history"@
}

/// The key one item's price history is cached under.
pub fn item_history_cache_key(id: &str) -> (r: String)
    ensures
        r@ == spec_item_history_key(id@),
{
    let mut s = String::from_str(tag_prefix(GroupTag::Items));
    s.append(id);
    s.append("-history");
    s
}

pub open spec fn spec_adj_list_key() -> Seq<char> {
    spec_tag_prefix(GroupTag::Tasks) + "adj_list"@
}

/// The key the dependency graph's row list is cached under.
pub fn adj_list_cache_key() -> (r: String)
    ensures
        r@ == spec_adj_list_key(),
{
    let mut s = String::from_str(tag_prefix(GroupTag::Tasks));
    s.append("adj_list");
    s
}

pub open spec fn spec_ammo_list_key(p: AmmoQueryParams, speed_text: Seq<char>) -> Seq<char> {
    spec_tag_prefix(GroupTag::Ammo) + spec_flag(p.sort_asc) + p.sort_by@ + "d"@ + spec_i64_dec(
        p.damage as int,
    ) + "p"@ + spec_i64_dec(p.penetration_power as int) + "i"@ + speed_text + p.ammo_type@ + "l"@
        + dec_rep(p.limit as nat) + "o"@ + dec_rep(p.offset as nat) + p.search@
}

/// The key an ammunition listing is cached under.  The minimum initial
/// speed appears as the caller rendered it, since only the caller can turn
/// the fractional value into text.
pub fn ammo_list_cache_key(p: &AmmoQueryParams, speed_text: &str) -> (r: String)
    ensures
        r@ == spec_ammo_list_key(*p, speed_text@),
{
    let mut s = String::from_str(tag_prefix(GroupTag::Ammo));
    s.append(flag_str(p.sort_asc));
    s.append(p.sort_by.as_str());
    s.append("d");
    let damage = i64_dec(p.damage as i64);
    s.append(damage.as_str());
    s.append("p");
    let pen = i64_dec(p.penetration_power as i64);
    s.append(pen.as_str());
    s.append("i");
    s.append(speed_text);
    s.append(p.ammo_type.as_str());
    s.append("l");
    let limit = u64_dec(p.limit as u64);
    s.append(limit.as_str());
    s.append("o");
    let offset = u64_dec(p.offset as u64);
    s.append(offset.as_str());
    s.append(p.search.as_str());
    s
}

/// The parameter set of the page just before `p`: identical in every
/// respect with the offset backed up one page.  `None` when there is no
/// previous page to look up, and the read path falls back to the literal
/// offset.
pub fn previous_page_params(p: &ItemQueryParams) -> (r: Option<ItemQueryParams>)
    ensures
        match r {
            Some(q) => p.limit > 0 && p.offset >= p.limit && q.offset == p.offset - p.limit
                && q.limit == p.limit && q.search == p.search && q.sort_asc == p.sort_asc
                && q.sort_by == p.sort_by && q.item_type == p.item_type && q.save == p.save,
            None => p.limit == 0 || p.offset < p.limit,
        },
{
    if p.limit == 0 || p.offset < p.limit {
        return None;
    }
    Some(ItemQueryParams {
        search: p.search.clone(),
        sort_asc: p.sort_asc,
        sort_by: p.sort_by.clone(),
        item_type: p.item_type.clone(),
        limit: p.limit,
        offset: p.offset - p.limit,
        save: p.save,
    })
}

} // verus!
