//! The compute half of the listing read paths: attaching offer and
//! objective rows to their parent records after the separate queries
//! return, deciding the item listing's sort mode, and assembling the
//! required-items derived view.

use vstd::prelude::*;

use crate::types::{
    BuyFor, Item, ItemBase, ItemFromDB, NeededItemsDB, Objective, ObjectiveView, SellFor, Task,
    TaskFromDB, TaskRequirement,
};

verus! {

/// Attaches each item's buy and sell offers: the result keeps the item
/// rows in order and gives every item exactly the offer rows that carry
/// its id, in query order.
pub fn items_from_db_to_items(
    items_from_db: Vec<ItemFromDB>,
    buy_for_vec: &Vec<BuyFor>,
    sell_for_vec: &Vec<SellFor>,
) -> (r: Vec<Item>)
    ensures
        r@.len() == items_from_db@.len(),
        forall|i: int|
            0 <= i < r@.len() ==> {
                let row = items_from_db@[i];
                let it = #[trigger] r@[i];
                &&& it._id == row._id
                &&& it.item_name == row.item_name
                &&& it.short_name == row.short_name
                &&& it.avg_24h_price == row.avg_24h_price
                &&& it.base_price == row.base_price
                &&& it.change_last_48h_percent_bits == row.change_last_48h_percent_bits
                &&& it.width == row.width
                &&& it.height == row.height
                &&& it.wiki == row.wiki
                &&& it.item_types == row.item_types
                &&& it.buy_from_flea_instant_profit == row.buy_from_flea_instant_profit
                &&& it.buy_from_trader_instant_profit == row.buy_from_trader_instant_profit
                &&& it.per_slot == row.per_slot
                &&& it.is_flea == row.is_flea
                &&& it.buys@ == buy_for_vec@.filter(
                    |b: BuyFor| b.item_id@ == row._id@,
                )
                &&& it.sells@ == sell_for_vec@.filter(
                    |s: SellFor| s.item_id@ == row._id@,
                )
            },
{
    let mut out: Vec<Item> = Vec::new();
    let mut rest = items_from_db;
    let mut i: usize = 0;
    while i < rest.len()
        invariant
            i <= rest@.len(),
            out@.len() == i,
            forall|k: int|
                0 <= k < i ==> {
                    let row = rest@[k];
                    let it = #[trigger] out@[k];
                    &&& it._id == row._id
                    &&& it.item_name == row.item_name
                    &&& it.short_name == row.short_name
                    &&& it.avg_24h_price == row.avg_24h_price
                    &&& it.base_price == row.base_price
                    &&& it.change_last_48h_percent_bits == row.change_last_48h_percent_bits
                    &&& it.width == row.width
                    &&& it.height == row.height
                    &&& it.wiki == row.wiki
                    &&& it.item_types == row.item_types
                    &&& it.buy_from_flea_instant_profit == row.buy_from_flea_instant_profit
                    &&& it.buy_from_trader_instant_profit == row.buy_from_trader_instant_profit
                    &&& it.per_slot == row.per_slot
                    &&& it.is_flea == row.is_flea
                    &&& it.buys@ == buy_for_vec@.filter(
                        |b: BuyFor| b.item_id@ == row._id@,
                    )
                    &&& it.sells@ == sell_for_vec@.filter(
                        |s: SellFor| s.item_id@ == row._id@,
                    )
                },
        decreases rest@.len() - i,
    {
        let row: &ItemFromDB = &rest[i];
        let ghost bpred = |b: BuyFor| b.item_id@ == rest@[i as int]._id@;
        let ghost spred = |s: SellFor| s.item_id@ == rest@[i as int]._id@;
        let mut buys: Vec<BuyFor> = Vec::new();
        let mut j: usize = 0;
        proof {
            assert(buy_for_vec@.take(0).filter(bpred) =~= Seq::<BuyFor>::empty());
        }
        while j < buy_for_vec.len()
            invariant
                j <= buy_for_vec@.len(),
                i < rest@.len(),
                bpred == (|b: BuyFor| b.item_id@ == rest@[i as int]._id@),
                buys@ == buy_for_vec@.take(j as int).filter(bpred),
            decreases buy_for_vec@.len() - j,
        {
            let b: &BuyFor = &buy_for_vec[j];
            proof {
                assert(buy_for_vec@.take(j + 1).drop_last() =~= buy_for_vec@.take(j as int));
                assert(buy_for_vec@.take(j + 1).last() == buy_for_vec@[j as int]);
                reveal(Seq::filter);
            }
            if b.item_id.eq(&rest[i]._id) {
                buys.push(BuyFor {
                    id: b.id,
                    price: b.price,
                    currency: b.currency.clone(),
                    price_rub: b.price_rub,
                    trader_name: b.trader_name.clone(),
                    min_trader_level: b.min_trader_level,
                    buy_limit: b.buy_limit,
                    item_id: b.item_id.clone(),
                });
                proof {
                    assert((BuyFor {
                        id: b.id,
                        price: b.price,
                        currency: b.currency,
                        price_rub: b.price_rub,
                        trader_name: b.trader_name,
                        min_trader_level: b.min_trader_level,
                        buy_limit: b.buy_limit,
                        item_id: b.item_id,
                    }) == buy_for_vec@[j as int]);
                }
            }
            j = j + 1;
        }
        proof {
            assert(buy_for_vec@.take(buy_for_vec@.len() as int) =~= buy_for_vec@);
        }
        let mut sells: Vec<SellFor> = Vec::new();
        let mut j2: usize = 0;
        proof {
            assert(sell_for_vec@.take(0).filter(spred) =~= Seq::<SellFor>::empty());
        }
        while j2 < sell_for_vec.len()
            invariant
                j2 <= sell_for_vec@.len(),
                i < rest@.len(),
                spred == (|s: SellFor| s.item_id@ == rest@[i as int]._id@),
                sells@ == sell_for_vec@.take(j2 as int).filter(spred),
            decreases sell_for_vec@.len() - j2,
        {
            let s: &SellFor = &sell_for_vec[j2];
            proof {
                assert(sell_for_vec@.take(j2 + 1).drop_last() =~= sell_for_vec@.take(j2 as int));
                assert(sell_for_vec@.take(j2 + 1).last() == sell_for_vec@[j2 as int]);
                reveal(Seq::filter);
            }
            if s.item_id.eq(&rest[i]._id) {
                sells.push(SellFor {
                    id: s.id,
                    price: s.price,
                    currency: s.currency.clone(),
                    price_rub: s.price_rub,
                    trader_name: s.trader_name.clone(),
                    found_in_raid_required: s.found_in_raid_required,
                    item_id: s.item_id.clone(),
                });
                proof {
                    assert((SellFor {
                        id: s.id,
                        price: s.price,
                        currency: s.currency,
                        price_rub: s.price_rub,
                        trader_name: s.trader_name,
                        found_in_raid_required: s.found_in_raid_required,
                        item_id: s.item_id,
                    }) == sell_for_vec@[j2 as int]);
                }
            }
            j2 = j2 + 1;
        }
        proof {
            assert(sell_for_vec@.take(sell_for_vec@.len() as int) =~= sell_for_vec@);
        }
        out.push(Item {
            _id: row._id.clone(),
            item_name: row.item_name.clone(),
            short_name: row.short_name.clone(),
            avg_24h_price: row.avg_24h_price,
            base_price: row.base_price,
            change_last_48h_percent_bits: row.change_last_48h_percent_bits,
            width: row.width,
            height: row.height,
            wiki: row.wiki.clone(),
            item_types: row.item_types.clone(),
            buy_from_flea_instant_profit: row.buy_from_flea_instant_profit,
            buy_from_trader_instant_profit: row.buy_from_trader_instant_profit,
            per_slot: row.per_slot,
            is_flea: row.is_flea,
            buys,
            sells,
        });
        i = i + 1;
    }
    out
}

/// Attaches each task's objectives and prerequisite relations, in query
/// order, keyed by the task's id.
pub fn tasks_from_db_to_tasks(
    tasks_from_db: Vec<TaskFromDB>,
    objective_vec: &Vec<Objective>,
    task_requirement_vec: &Vec<TaskRequirement>,
) -> (r: Vec<Task>)
    ensures
        r@.len() == tasks_from_db@.len(),
        forall|i: int|
            0 <= i < r@.len() ==> {
                let row = tasks_from_db@[i];
                let t = #[trigger] r@[i];
                &&& t._id == row._id
                &&& t.task_name == row.task_name
                &&& t.min_player_level == row.min_player_level
                &&& t.trader == row.trader
                &&& t.faction_name == row.faction_name
                &&& t.kappa_required == row.kappa_required
                &&& t.lightkeeper_required == row.lightkeeper_required
                &&& t.wiki == row.wiki
                &&& t.objectives.deep_view() == objective_vec.deep_view().filter(
                    |o: ObjectiveView| o.task_id == row._id@,
                )
                &&& t.task_requirements@ == task_requirement_vec@.filter(
                    |q: TaskRequirement| q.task_id@ == row._id@,
                )
            },
{
    let mut out: Vec<Task> = Vec::new();
    let rest = tasks_from_db;
    let mut i: usize = 0;
    while i < rest.len()
        invariant
            i <= rest@.len(),
            out@.len() == i,
            forall|k: int|
                0 <= k < i ==> {
                    let row = rest@[k];
                    let t = #[trigger] out@[k];
                    &&& t._id == row._id
                    &&& t.task_name == row.task_name
                    &&& t.min_player_level == row.min_player_level
                    &&& t.trader == row.trader
                    &&& t.faction_name == row.faction_name
                    &&& t.kappa_required == row.kappa_required
                    &&& t.lightkeeper_required == row.lightkeeper_required
                    &&& t.wiki == row.wiki
                    &&& t.objectives.deep_view() == objective_vec.deep_view().filter(
                        |o: ObjectiveView| o.task_id == row._id@,
                    )
                    &&& t.task_requirements@ == task_requirement_vec@.filter(
                        |q: TaskRequirement| q.task_id@ == row._id@,
                    )
                },
        decreases rest@.len() - i,
    {
        let row: &TaskFromDB = &rest[i];
        let ghost opred = |o: ObjectiveView| o.task_id == rest@[i as int]._id@;
        let ghost qpred = |q: TaskRequirement| q.task_id@ == rest@[i as int]._id@;
        let mut objectives: Vec<Objective> = Vec::new();
        let mut j: usize = 0;
        proof {
            assert(objective_vec.deep_view().take(0).filter(opred) =~= Seq::<ObjectiveView>::empty());
        }
        while j < objective_vec.len()
            invariant
                j <= objective_vec@.len(),
                i < rest@.len(),
                opred == (|o: ObjectiveView| o.task_id == rest@[i as int]._id@),
                objectives.deep_view() == objective_vec.deep_view().take(j as int).filter(opred),
            decreases objective_vec@.len() - j,
        {
            let o: &Objective = &objective_vec[j];
            proof {
                let odv = objective_vec.deep_view();
                assert(odv.take(j + 1).drop_last() =~= odv.take(j as int));
                assert(odv.take(j + 1).last() == odv[j as int]);
                assert(odv[j as int] == objective_vec@[j as int].deep_view());
                reveal(Seq::filter);
            }
            if o.task_id.eq(&rest[i]._id) {
                let mut ids: Vec<String> = Vec::new();
                let mut w: usize = 0;
                while w < o.needed_item_ids.len()
                    invariant
                        w <= o.needed_item_ids@.len(),
                        ids@ =~= o.needed_item_ids@.take(w as int),
                    decreases o.needed_item_ids@.len() - w,
                {
                    ids.push(o.needed_item_ids[w].clone());
                    proof {
                        assert(ids@ =~= o.needed_item_ids@.take(w + 1));
                    }
                    w = w + 1;
                }
                proof {
                    assert(ids@ =~= o.needed_item_ids@);
                }
                let obj = Objective {
                    id: o.id,
                    obj_type: o.obj_type.clone(),
                    obj_description: o.obj_description.clone(),
                    map_name: o.map_name.clone(),
                    map_wiki: o.map_wiki.clone(),
                    task_id: o.task_id.clone(),
                    count: o.count,
                    needed_item_ids: ids,
                };
                let ghost objs0 = objectives.deep_view();
                proof {
                    assert(obj.needed_item_ids.deep_view() =~= o.needed_item_ids.deep_view());
                    assert(obj.deep_view() == objective_vec@[j as int].deep_view());
                }
                objectives.push(obj);
                proof {
                    assert(objectives.deep_view() =~= objs0.push(obj.deep_view()));
                }
            }
            j = j + 1;
        }
        proof {
            assert(objective_vec.deep_view().take(objective_vec@.len() as int)
                =~= objective_vec.deep_view());
        }
        let mut task_requirements: Vec<TaskRequirement> = Vec::new();
        let mut j2: usize = 0;
        proof {
            assert(task_requirement_vec@.take(0).filter(qpred) =~= Seq::<TaskRequirement>::empty());
        }
        while j2 < task_requirement_vec.len()
            invariant
                j2 <= task_requirement_vec@.len(),
                i < rest@.len(),
                qpred == (|q: TaskRequirement| q.task_id@ == rest@[i as int]._id@),
                task_requirements@ == task_requirement_vec@.take(j2 as int).filter(qpred),
            decreases task_requirement_vec@.len() - j2,
        {
            let q: &TaskRequirement = &task_requirement_vec[j2];
            proof {
                assert(task_requirement_vec@.take(j2 + 1).drop_last() =~= task_requirement_vec@
                    .take(j2 as int));
                assert(task_requirement_vec@.take(j2 + 1).last() == task_requirement_vec@[
                    j2 as int]);
                reveal(Seq::filter);
            }
            if q.task_id.eq(&rest[i]._id) {
                task_requirements.push(TaskRequirement {
                    id: q.id,
                    status: q.status.clone(),
                    req_task_id: q.req_task_id.clone(),
                    task_id: q.task_id.clone(),
                });
                proof {
                    assert((TaskRequirement {
                        id: q.id,
                        status: q.status,
                        req_task_id: q.req_task_id,
                        task_id: q.task_id,
                    }) == task_requirement_vec@[j2 as int]);
                }
            }
            j2 = j2 + 1;
        }
        proof {
            assert(task_requirement_vec@.take(task_requirement_vec@.len() as int)
                =~= task_requirement_vec@);
        }
        out.push(Task {
            _id: row._id.clone(),
            task_name: row.task_name.clone(),
            min_player_level: row.min_player_level,
            trader: row.trader.clone(),
            faction_name: row.faction_name.clone(),
            kappa_required: row.kappa_required,
            lightkeeper_required: row.lightkeeper_required,
            wiki: row.wiki.clone(),
            objectives,
            task_requirements,
        });
        i = i + 1;
    }
    out
}

/// The lower-cased code point, for the ASCII range only; how the item
/// listing's sort selector is compared.
pub open spec fn lower_code(c: char) -> int {
    if 65 <= c as u32 <= 90 {
        c as u32 + 32
    } else {
        c as u32 as int
    }
}

pub open spec fn spec_eq_ignore_ascii_case(a: Seq<char>, b: Seq<char>) -> bool {
    a.len() == b.len() && forall|i: int| 0 <= i < a.len() ==> lower_code(a[i]) == lower_code(b[i])
}

/// Case-insensitive comparison over the ASCII letters.
pub fn eq_ignore_ascii_case(a: &str, b: &str) -> (r: bool)
    ensures
        r == spec_eq_ignore_ascii_case(a@, b@),
{
    let alen = a.unicode_len();
    let blen = b.unicode_len();
    if alen != blen {
        return false;
    }
    let mut i: usize = 0;
    while i < alen
        invariant
            i <= alen,
            alen == a@.len(),
            blen == b@.len(),
            alen == blen,
            forall|j: int| 0 <= j < i ==> lower_code(a@[j]) == lower_code(b@[j]),
        decreases alen - i,
    {
        let ca = a.get_char(i);
        let cb = b.get_char(i);
        let la: u32 = if ca >= 'A' && ca <= 'Z' {
            ca as u32 + 32
        } else {
            ca as u32
        };
        let lb: u32 = if cb >= 'A' && cb <= 'Z' {
            cb as u32 + 32
        } else {
            cb as u32
        };
        if la != lb {
            return false;
        }
        i = i + 1;
    }
    true
}

/// Whether the chosen sort selector is one of the flea-market columns, in
/// which case the listing restricts itself to flea-tradable items.
pub fn is_flea_sort(sort_by: &str) -> (r: bool)
    ensures
        r == (spec_eq_ignore_ascii_case(sort_by@, "flea_market"@) || spec_eq_ignore_ascii_case(
            sort_by@,
            "buy_from_flea_instant_profit"@,
        ) || spec_eq_ignore_ascii_case(sort_by@, "buy_from_trader_instant_profit"@)
            || spec_eq_ignore_ascii_case(sort_by@, "per_slot"@) || spec_eq_ignore_ascii_case(
            sort_by@,
            "avg_24h_price"@,
        ) || spec_eq_ignore_ascii_case(sort_by@, "change_last_48h_percent"@)),
{
    eq_ignore_ascii_case(sort_by, "flea_market") || eq_ignore_ascii_case(
        sort_by,
        "buy_from_flea_instant_profit",
    ) || eq_ignore_ascii_case(sort_by, "buy_from_trader_instant_profit") || eq_ignore_ascii_case(
        sort_by,
        "per_slot",
    ) || eq_ignore_ascii_case(sort_by, "avg_24h_price") || eq_ignore_ascii_case(
        sort_by,
        "change_last_48h_percent",
    )
}

/// Whether the listing must join through the buy offers to sort by the
/// flea-market price instead of an item column.
pub fn is_flea_market_sort(sort_by: &str) -> (r: bool)
    ensures
        r == spec_eq_ignore_ascii_case(sort_by@, "flea_market"@),
{
    eq_ignore_ascii_case(sort_by, "flea_market")
}

/// The assoc pairs of the grouped counts, as a map.
pub open spec fn counts_model(s: Seq<(String, i64)>) -> Map<Seq<char>, int> {
    Map::new(
        |k: Seq<char>| exists|i: int| 0 <= i < s.len() && s[i].0@ == k,
        |k: Seq<char>| (s[choose|i: int| 0 <= i < s.len() && s[i].0@ == k].1) as int,
    )
}

pub open spec fn counts_unique(s: Seq<(String, i64)>) -> bool {
    forall|i: int, j: int| 0 <= i < j < s.len() ==> s[i].0@ != s[j].0@
}

/// Adds `c` to each of the named ids' totals.
pub open spec fn spec_add_ids(m: Map<Seq<char>, int>, ids: Seq<String>, c: int) -> Map<
    Seq<char>,
    int,
>
    decreases ids.len(),
{
    if ids.len() == 0 {
        m
    } else {
        let m2 = spec_add_ids(m, ids.drop_last(), c);
        let k = ids.last()@;
        m2.insert(
            k,
            (if m2.dom().contains(k) {
                m2[k]
            } else {
                0
            }) + c,
        )
    }
}

/// The per-item totals of the required-items view: every objective row
/// contributes its count to each item it needs.
pub open spec fn spec_group(values: Seq<NeededItemsDB>) -> Map<Seq<char>, int>
    decreases values.len(),
{
    if values.len() == 0 {
        Map::empty()
    } else {
        spec_add_ids(
            spec_group(values.drop_last()),
            values.last().needed_item_ids@,
            values.last().count as int,
        )
    }
}

/// How many id occurrences the rows carry in all.
pub open spec fn spec_num_ids(values: Seq<NeededItemsDB>) -> int
    decreases values.len(),
{
    if values.len() == 0 {
        0
    } else {
        spec_num_ids(values.drop_last()) + values.last().needed_item_ids@.len()
    }
}

proof fn lemma_add_ids_bound(m: Map<Seq<char>, int>, ids: Seq<String>, c: int, b: int)
    requires
        forall|k: Seq<char>| m.dom().contains(k) ==> -b <= #[trigger] m[k] <= b,
        0 <= b,
        -0x8000_0000 <= c <= 0x8000_0000,
    ensures
        forall|k: Seq<char>|
            spec_add_ids(m, ids, c).dom().contains(k) ==> -(b + ids.len() * 0x8000_0000)
                <= #[trigger] spec_add_ids(m, ids, c)[k] <= b + ids.len() * 0x8000_0000,
    decreases ids.len(),
{
    let big = b + ids.len() * 0x8000_0000;
    if ids.len() > 0 {
        lemma_add_ids_bound(m, ids.drop_last(), c, b);
        let m2 = spec_add_ids(m, ids.drop_last(), c);
        let bb = b + ids.drop_last().len() * 0x8000_0000;
        assert(bb + 0x8000_0000 <= big) by (nonlinear_arith)
            requires
                bb == b + ids.drop_last().len() * 0x8000_0000,
                big == b + ids.len() * 0x8000_0000,
                ids.drop_last().len() == ids.len() - 1,
                ids.len() >= 1;
        assert(0 <= bb) by (nonlinear_arith)
            requires
                bb == b + ids.drop_last().len() * 0x8000_0000,
                0 <= b,
                ids.drop_last().len() >= 0;
        let k0 = ids.last()@;
        let newval = (if m2.dom().contains(k0) {
            m2[k0]
        } else {
            0
        }) + c;
        assert(-big <= newval <= big);
        assert forall|k: Seq<char>| spec_add_ids(m, ids, c).dom().contains(k) implies -big
            <= #[trigger] spec_add_ids(m, ids, c)[k] <= big by {
            if k == k0 {
                assert(spec_add_ids(m, ids, c)[k] == newval);
            } else {
                assert(spec_add_ids(m, ids, c)[k] == m2[k]);
            }
        }
    } else {
        assert(ids.len() * 0x8000_0000 == 0) by (nonlinear_arith)
            requires ids.len() == 0;
        assert(spec_add_ids(m, ids, c) == m);
    }
}

proof fn lemma_group_bound(values: Seq<NeededItemsDB>)
    ensures
        forall|k: Seq<char>|
            spec_group(values).dom().contains(k) ==> -(spec_num_ids(values) * 0x8000_0000)
                <= #[trigger] spec_group(values)[k] <= spec_num_ids(values) * 0x8000_0000,
        0 <= spec_num_ids(values),
    decreases values.len(),
{
    if values.len() == 0 {
    } else {
        lemma_group_bound(values.drop_last());
        let ids = values.last().needed_item_ids@;
        let b = spec_num_ids(values.drop_last()) * 0x8000_0000;
        lemma_add_ids_bound(
            spec_group(values.drop_last()),
            ids,
            values.last().count as int,
            b,
        );
        assert(b + ids.len() * 0x8000_0000 == spec_num_ids(values) * 0x8000_0000)
            by (nonlinear_arith)
            requires
                b == spec_num_ids(values.drop_last()) * 0x8000_0000,
                spec_num_ids(values) == spec_num_ids(values.drop_last()) + ids.len();
    }
}

proof fn lemma_counts_idx(s: Seq<(String, i64)>, i: int)
    requires
        counts_unique(s),
        0 <= i < s.len(),
    ensures
        counts_model(s).dom().contains(s[i].0@),
        counts_model(s)[s[i].0@] == s[i].1 as int,
{
    let k = s[i].0@;
    let j = choose|j: int| 0 <= j < s.len() && s[j].0@ == k;
    if j < i {
        assert(s[j].0@ != s[i].0@);
    } else if i < j {
        assert(s[i].0@ != s[j].0@);
    }
}

proof fn lemma_counts_push(s: Seq<(String, i64)>, key: String, c: i64)
    requires
        counts_unique(s),
        !(exists|i: int| 0 <= i < s.len() && s[i].0@ == key@),
    ensures
        counts_unique(s.push((key, c))),
        counts_model(s.push((key, c))) == counts_model(s).insert(key@, c as int),
{
    let s2 = s.push((key, c));
    assert forall|i: int, j: int| 0 <= i < j < s2.len() implies s2[i].0@ != s2[j].0@ by {
        if j < s.len() {
            assert(s2[i].0@ == s[i].0@ && s2[j].0@ == s[j].0@);
        } else {
            assert(s2[j].0@ == key@ && s2[i].0@ == s[i].0@);
        }
    }
    let lhs = counts_model(s2);
    let rhs = counts_model(s).insert(key@, c as int);
    assert forall|k: Seq<char>| lhs.dom().contains(k) <==> rhs.dom().contains(k) by {
        if k == key@ {
            assert(s2[s.len() as int].0@ == k);
        } else {
            if exists|i: int| 0 <= i < s2.len() && s2[i].0@ == k {
                let i = choose|i: int| 0 <= i < s2.len() && s2[i].0@ == k;
                assert(i < s.len() && s[i].0@ == k);
            }
            if exists|i: int| 0 <= i < s.len() && s[i].0@ == k {
                let i = choose|i: int| 0 <= i < s.len() && s[i].0@ == k;
                assert(s2[i].0@ == k);
            }
        }
    }
    assert forall|k: Seq<char>| lhs.dom().contains(k) implies lhs[k] == rhs[k] by {
        if k == key@ {
            lemma_counts_idx(s2, s.len() as int);
        } else {
            let i = choose|i: int| 0 <= i < s2.len() && s2[i].0@ == k;
            assert(i < s.len());
            lemma_counts_idx(s2, i);
            lemma_counts_idx(s, i);
        }
    }
    assert(lhs =~= rhs);
}

proof fn lemma_counts_remove(s: Seq<(String, i64)>, i: int)
    requires
        counts_unique(s),
        0 <= i < s.len(),
    ensures
        counts_unique(s.remove(i)),
        counts_model(s.remove(i)) == counts_model(s).remove(s[i].0@),
{
    let k0 = s[i].0@;
    let s2 = s.remove(i);
    assert forall|a: int, b: int| 0 <= a < b < s2.len() implies s2[a].0@ != s2[b].0@ by {
        let a0 = if a < i {
            a
        } else {
            a + 1
        };
        let b0 = if b < i {
            b
        } else {
            b + 1
        };
        assert(s2[a] == s[a0] && s2[b] == s[b0]);
        assert(s[a0].0@ != s[b0].0@);
    }
    let lhs = counts_model(s2);
    let rhs = counts_model(s).remove(k0);
    assert forall|k: Seq<char>| lhs.dom().contains(k) <==> rhs.dom().contains(k) by {
        if exists|j: int| 0 <= j < s2.len() && s2[j].0@ == k {
            let j = choose|j: int| 0 <= j < s2.len() && s2[j].0@ == k;
            let j0 = if j < i {
                j
            } else {
                j + 1
            };
            assert(s[j0].0@ == k);
            if k == k0 {
                if j0 < i {
                    assert(s[j0].0@ != s[i].0@);
                } else {
                    assert(s[i].0@ != s[j0].0@);
                }
            }
        }
        if k != k0 && (exists|j: int| 0 <= j < s.len() && s[j].0@ == k) {
            let j = choose|j: int| 0 <= j < s.len() && s[j].0@ == k;
            assert(j != i);
            let j2 = if j < i {
                j
            } else {
                j - 1
            };
            assert(s2[j2] == s[j]);
        }
    }
    assert forall|k: Seq<char>| lhs.dom().contains(k) implies lhs[k] == rhs[k] by {
        let j = choose|j: int| 0 <= j < s2.len() && s2[j].0@ == k;
        let j0 = if j < i {
            j
        } else {
            j + 1
        };
        assert(s2[j] == s[j0]);
        lemma_counts_idx(s2, j);
        lemma_counts_idx(s, j0);
    }
    assert(lhs =~= rhs);
}

fn find_count(groups: &Vec<(String, i64)>, key: &String) -> (r: Option<usize>)
    ensures
        match r {
            Some(i) => i < groups@.len() && groups@[i as int].0@ == key@,
            None => !(exists|i: int| 0 <= i < groups@.len() && groups@[i as int].0@ == key@),
        },
{
    let mut i: usize = 0;
    while i < groups.len()
        invariant
            i <= groups@.len(),
            forall|j: int| 0 <= j < i ==> groups@[j].0@ != key@,
        decreases groups@.len() - i,
    {
        let pair: &(String, i64) = &groups[i];
        if pair.0.eq(key) {
            return Some(i);
        }
        i = i + 1;
    }
    None
}

/// Folds the required-item rows into one total per item id: each row adds
/// its count to every item it names.  Totals are wide enough that the
/// bounded number of id occurrences can never overflow them.
pub fn group_needed_items(values: &Vec<NeededItemsDB>) -> (r: Vec<(String, i64)>)
    requires
        spec_num_ids(values@) < 0x1_0000_0000,
    ensures
        counts_unique(r@),
        counts_model(r@) == spec_group(values@),
{
    let mut acc: Vec<(String, i64)> = Vec::new();
    let mut i: usize = 0;
    proof {
        assert(counts_model(acc@) =~= Map::<Seq<char>, int>::empty());
        lemma_group_bound(values@);
    }
    while i < values.len()
        invariant
            i <= values@.len(),
            spec_num_ids(values@) < 0x1_0000_0000,
            counts_unique(acc@),
            counts_model(acc@) == spec_group(values@.take(i as int)),
            spec_num_ids(values@.take(i as int)) <= spec_num_ids(values@),
            0 <= spec_num_ids(values@.take(i as int)),
        decreases values@.len() - i,
    {
        let v: &NeededItemsDB = &values[i];
        let ghost base = spec_group(values@.take(i as int));
        let ghost ids = values@[i as int].needed_item_ids@;
        let ghost c = values@[i as int].count as int;
        let mut w: usize = 0;
        proof {
            assert(values@.take(i + 1).drop_last() =~= values@.take(i as int));
            assert(values@.take(i + 1).last() == values@[i as int]);
            assert(spec_add_ids(base, ids.take(0), c) == base) by {
                assert(ids.take(0).len() == 0);
            }
            lemma_num_ids_take(values@, i as int);
        }
        while w < v.needed_item_ids.len()
            invariant
                w <= ids.len(),
                i < values@.len(),
                v == &values@[i as int],
                ids == values@[i as int].needed_item_ids@,
                c == values@[i as int].count as int,
                base == spec_group(values@.take(i as int)),
                spec_num_ids(values@) < 0x1_0000_0000,
                spec_num_ids(values@.take(i as int)) + ids.len() <= spec_num_ids(values@),
                0 <= spec_num_ids(values@.take(i as int)),
                counts_unique(acc@),
                counts_model(acc@) == spec_add_ids(base, ids.take(w as int), c),
            decreases ids.len() - w,
        {
            let key: &String = &v.needed_item_ids[w];
            let ghost m0 = counts_model(acc@);
            proof {
                assert(ids.take(w + 1).drop_last() =~= ids.take(w as int));
                assert(ids.take(w + 1).last() == ids[w as int]);
                lemma_group_bound(values@.take(i as int));
                assert(0 <= spec_num_ids(values@.take(i as int)) * 0x8000_0000)
                    by (nonlinear_arith)
                    requires 0 <= spec_num_ids(values@.take(i as int));
                lemma_add_ids_bound(base, ids.take(w as int), c, spec_num_ids(
                    values@.take(i as int),
                ) * 0x8000_0000);
                assert((spec_num_ids(values@.take(i as int)) + ids.take(w as int).len())
                    * 0x8000_0000 < 0x8000_0000_0000_0000) by (nonlinear_arith)
                    requires
                        spec_num_ids(values@.take(i as int)) + ids.take(w as int).len()
                            < 0x1_0000_0000,
                        0 <= spec_num_ids(values@.take(i as int)) + ids.take(w as int).len();
                assert(spec_num_ids(values@.take(i as int)) * 0x8000_0000 + ids.take(
                    w as int,
                ).len() * 0x8000_0000 == (spec_num_ids(values@.take(i as int)) + ids.take(
                    w as int,
                ).len()) * 0x8000_0000) by (nonlinear_arith);
            }
            match find_count(&acc, key) {
                Some(j) => {
                    proof {
                        lemma_counts_idx(acc@, j as int);
                        lemma_counts_remove(acc@, j as int);
                    }
                    let pair = acc.remove(j);
                    let total: i64 = pair.1 + (v.count as i64);
                    proof {
                        assert(!(exists|x: int|
                            0 <= x < acc@.len() && acc@[x].0@ == pair.0@)) by {
                            if exists|x: int| 0 <= x < acc@.len() && acc@[x].0@ == pair.0@ {
                                let x = choose|x: int|
                                    0 <= x < acc@.len() && acc@[x].0@ == pair.0@;
                                assert(counts_model(acc@).dom().contains(pair.0@));
                            }
                        }
                        lemma_counts_push(acc@, pair.0, total);
                    }
                    acc.push((pair.0, total));
                    proof {
                        assert(counts_model(acc@) =~= spec_add_ids(base, ids.take(w + 1), c));
                    }
                },
                None => {
                    let key2 = key.clone();
                    let total: i64 = v.count as i64;
                    proof {
                        lemma_counts_push(acc@, key2, total);
                    }
                    acc.push((key2, total));
                    proof {
                        assert(counts_model(acc@) =~= spec_add_ids(base, ids.take(w + 1), c));
                    }
                },
            }
            w = w + 1;
        }
        proof {
            assert(ids.take(ids.len() as int) =~= ids);
            assert(counts_model(acc@) == spec_group(values@.take(i + 1)));
            lemma_num_ids_take(values@, i + 1);
        }
        i = i + 1;
    }
    proof {
        assert(values@.take(values@.len() as int) =~= values@);
    }
    acc
}

proof fn lemma_num_ids_take(values: Seq<NeededItemsDB>, i: int)
    requires
        0 <= i <= values.len(),
    ensures
        spec_num_ids(values.take(i)) + spec_num_ids(values.skip(i)) == spec_num_ids(values),
        0 <= spec_num_ids(values.take(i)),
        0 <= spec_num_ids(values.skip(i)),
        i < values.len() ==> spec_num_ids(values.take(i)) + values[i].needed_item_ids@.len()
            <= spec_num_ids(values),
    decreases values.len() - i,
{
    lemma_num_ids_nonneg(values.take(i));
    lemma_num_ids_nonneg(values.skip(i));
    if i == values.len() {
        assert(values.take(i) =~= values);
        assert(values.skip(i).len() == 0);
        assert(spec_num_ids(values.skip(i)) == 0);
        lemma_num_ids_nonneg(values);
    } else {
        lemma_num_ids_take(values, i + 1);
        assert(values.take(i + 1).drop_last() =~= values.take(i));
        assert(values.take(i + 1).last() == values[i]);
        assert(values.skip(i).drop_first() =~= values.skip(i + 1));
        lemma_num_ids_first(values.skip(i));
        assert(values.skip(i).first() == values[i]);
        lemma_num_ids_nonneg(values.skip(i + 1));
    }
}

proof fn lemma_num_ids_nonneg(values: Seq<NeededItemsDB>)
    ensures
        0 <= spec_num_ids(values),
    decreases values.len(),
{
    if values.len() > 0 {
        lemma_num_ids_nonneg(values.drop_last());
    }
}

proof fn lemma_num_ids_first(values: Seq<NeededItemsDB>)
    requires
        values.len() > 0,
    ensures
        spec_num_ids(values) == values.first().needed_item_ids@.len() + spec_num_ids(
            values.drop_first(),
        ),
    decreases values.len(),
{
    if values.len() == 1 {
        assert(values.drop_first().len() == 0);
        assert(spec_num_ids(values.drop_first()) == 0);
        assert(values.drop_last().len() == 0);
        assert(spec_num_ids(values.drop_last()) == 0);
        assert(values.last() == values.first());
    } else {
        lemma_num_ids_first(values.drop_last());
        assert(values.drop_last().first() == values.first());
        assert(values.drop_last().drop_first() =~= values.drop_first().drop_last());
        assert(values.drop_first().last() == values.last());
        assert(spec_num_ids(values) == spec_num_ids(values.drop_last())
            + values.last().needed_item_ids@.len());
        assert(spec_num_ids(values.drop_first()) == spec_num_ids(values.drop_first().drop_last())
            + values.drop_first().last().needed_item_ids@.len());
    }
}

/// The total a grouped map carries for `k`, zero when `k` has none.
pub open spec fn spec_count_of(m: Map<Seq<char>, int>, k: Seq<char>) -> int {
    if m.dom().contains(k) {
        m[k]
    } else {
        0
    }
}

/// The count column of the final pairing, aligned with the item rows —
/// never read out of the grouped map in map order, which would misalign
/// it.
pub fn counts_for_items(items: &Vec<ItemBase>, groups: &Vec<(String, i64)>) -> (r: Vec<i64>)
    requires
        counts_unique(groups@),
    ensures
        r@.len() == items@.len(),
        forall|i: int|
            0 <= i < r@.len() ==> #[trigger] r@[i] as int == spec_count_of(
                counts_model(groups@),
                items@[i]._id@,
            ),
{
    let mut out: Vec<i64> = Vec::new();
    let mut i: usize = 0;
    while i < items.len()
        invariant
            i <= items@.len(),
            counts_unique(groups@),
            out@.len() == i,
            forall|j: int|
                0 <= j < i ==> #[trigger] out@[j] as int == spec_count_of(
                    counts_model(groups@),
                    items@[j]._id@,
                ),
        decreases items@.len() - i,
    {
        let item: &ItemBase = &items[i];
        match find_count(groups, &item._id) {
            Some(j) => {
                proof {
                    lemma_counts_idx(groups@, j as int);
                }
                let pair: &(String, i64) = &groups[j];
                out.push(pair.1);
            },
            None => {
                out.push(0);
            },
        }
        i = i + 1;
    }
    out
}

/// Pairs each item with its aligned count; the shape the required-items
/// view serves.
pub fn get_required_items(items: Vec<ItemBase>, counts: Vec<i64>) -> (r: Vec<(ItemBase, i64)>)
    requires
        items@.len() == counts@.len(),
    ensures
        r@.len() == items@.len(),
        forall|i: int|
            0 <= i < r@.len() ==> #[trigger] r@[i].0 == items@[i] && r@[i].1 == counts@[i],
{
    let mut out: Vec<(ItemBase, i64)> = Vec::new();
    let mut i: usize = 0;
    while i < items.len()
        invariant
            i <= items@.len(),
            items@.len() == counts@.len(),
            out@.len() == i,
            forall|j: int|
                0 <= j < i ==> #[trigger] out@[j].0 == items@[j] && out@[j].1 == counts@[j],
        decreases items@.len() - i,
    {
        let item: &ItemBase = &items[i];
        let pair = (ItemBase { _id: item._id.clone(), item_name: item.item_name.clone() },
        counts[i]);
        proof {
            assert(pair.0 == items@[i as int]);
        }
        out.push(pair);
        i = i + 1;
    }
    out
}

} // verus!
