//! The shapes the upstream data provider serves, and the derived columns
//! computed from them before the snapshot is persisted: the instant-profit
//! figures, the per-slot value, the recorded flea price samples, and the
//! flattened task relation rows.  Fractional feed fields travel as their
//! IEEE-754 bits; none of the computations below reads them.

use vstd::prelude::*;

use crate::strutil::{spec_join, str_views};

verus! {

/// The vendor block of a buy offer in the feed.
#[derive(Clone, Debug)]
pub struct BuyForVendor {
    pub trader_name: String,
    pub min_trader_level: Option<i32>,
    pub buy_limit: Option<i32>,
}

/// A buy offer in the feed.
#[derive(Clone, Debug)]
pub struct BuyFor {
    pub price: i32,
    pub currency: String,
    pub price_rub: i32,
    pub vendor: BuyForVendor,
}

/// The vendor block of a sell offer in the feed; its fee rates are
/// fractional and travel as bits.
#[derive(Clone, Debug)]
pub struct SellForVendor {
    pub trader_name: String,
    pub sell_offer_fee_rate_bits: Option<u32>,
    pub sell_requirement_fee_rate_bits: Option<u32>,
    pub found_in_raid_required: Option<bool>,
}

/// A sell offer in the feed.
#[derive(Clone, Debug)]
pub struct SellFor {
    pub price: i32,
    pub currency: String,
    pub price_rub: i32,
    pub vendor: SellForVendor,
}

/// An item as the feed serves it.
#[derive(Clone, Debug)]
pub struct Item {
    pub _id: String,
    pub item_name: String,
    pub short_name: String,
    pub avg_24h_price: Option<i32>,
    pub base_price: i32,
    /// IEEE-754 bits of the 48h price change; carried, never read.
    pub change_last_48h_percent_bits: Option<u32>,
    pub width: i32,
    pub height: i32,
    pub wiki: String,
    pub item_types: Vec<String>,
    pub buys: Vec<BuyFor>,
    pub sells: Vec<SellFor>,
}

/// A map a task objective takes place on.
#[derive(Clone, Debug)]
pub struct TaskMap {
    pub name: String,
    pub wiki: String,
}

/// An item an objective needs.
#[derive(Clone, Debug)]
pub struct NeededItem {
    pub _id: String,
}

/// A task objective as the feed serves it.
#[derive(Clone, Debug)]
pub struct Objective {
    pub obj_type: String,
    pub obj_description: String,
    pub maps: Vec<TaskMap>,
    pub count: Option<i32>,
    pub items: Option<Vec<NeededItem>>,
}

/// The id block of a required task.
#[derive(Clone, Debug)]
pub struct ReqTaskId {
    pub id: String,
}

/// A prerequisite relation as the feed serves it.
#[derive(Clone, Debug)]
pub struct TaskRequirement {
    pub status: Vec<String>,
    pub req_task_id: ReqTaskId,
}

/// The trader block of a task.
#[derive(Clone, Debug)]
pub struct Trader {
    pub name: String,
}

/// A task as the feed serves it.
#[derive(Clone, Debug)]
pub struct Task {
    pub _id: String,
    pub task_name: String,
    pub min_player_level: i32,
    pub trader: Trader,
    pub faction_name: String,
    pub kappa_required: bool,
    pub lightkeeper_required: bool,
    pub wiki: String,
    pub objectives: Vec<Objective>,
    pub task_requirements: Vec<TaskRequirement>,
}

/// A bare item id in the feed.
#[derive(Clone, Debug)]
pub struct ItemId {
    pub _id: String,
}

/// Every price bound below keeps the profit subtractions inside `i32`.
pub open spec fn price_in_range(p: int) -> bool {
    -0x3fff_ffff <= p <= 0x3fff_ffff
}

pub open spec fn is_flea_vendor_sell(s: SellFor) -> bool {
    s.vendor.trader_name@ == "Flea Market"@
}

pub open spec fn is_flea_vendor_buy(b: BuyFor) -> bool {
    b.vendor.trader_name@ == "Flea Market"@
}

/// The ranking key that makes flea offers lose every comparison.
pub open spec fn sell_key(s: SellFor) -> int {
    if is_flea_vendor_sell(s) {
        0
    } else {
        s.price_rub as int
    }
}

pub open spec fn buy_key(b: BuyFor) -> int {
    if is_flea_vendor_buy(b) {
        0
    } else {
        b.price_rub as int
    }
}

/// The best-ranked sell offer, later offers winning ties.
pub open spec fn max_sell_sel(sells: Seq<SellFor>) -> Option<SellFor>
    decreases sells.len(),
{
    if sells.len() == 0 {
        None
    } else {
        match max_sell_sel(sells.drop_last()) {
            None => Some(sells.last()),
            Some(p) => if sell_key(sells.last()) >= sell_key(p) {
                Some(sells.last())
            } else {
                Some(p)
            },
        }
    }
}

/// The best-ranked sell offer by raw rouble price, later offers winning
/// ties.
pub open spec fn max_rub_sel(sells: Seq<SellFor>) -> Option<SellFor>
    decreases sells.len(),
{
    if sells.len() == 0 {
        None
    } else {
        match max_rub_sel(sells.drop_last()) {
            None => Some(sells.last()),
            Some(p) => if sells.last().price_rub >= p.price_rub {
                Some(sells.last())
            } else {
                Some(p)
            },
        }
    }
}

/// The cheapest-ranked buy offer, earlier offers winning ties.
pub open spec fn min_buy_sel(buys: Seq<BuyFor>) -> Option<BuyFor>
    decreases buys.len(),
{
    if buys.len() == 0 {
        None
    } else {
        match min_buy_sel(buys.drop_last()) {
            None => Some(buys.last()),
            Some(p) => if buy_key(buys.last()) < buy_key(p) {
                Some(buys.last())
            } else {
                Some(p)
            },
        }
    }
}

/// The first flea-market buy offer.
pub open spec fn first_flea_buy(buys: Seq<BuyFor>) -> Option<BuyFor>
    decreases buys.len(),
{
    if buys.len() == 0 {
        None
    } else if is_flea_vendor_buy(buys.first()) {
        Some(buys.first())
    } else {
        first_flea_buy(buys.drop_first())
    }
}

/// The first flea-market sell offer.
pub open spec fn first_flea_sell(sells: Seq<SellFor>) -> Option<SellFor>
    decreases sells.len(),
{
    if sells.len() == 0 {
        None
    } else if is_flea_vendor_sell(sells.first()) {
        Some(sells.first())
    } else {
        first_flea_sell(sells.drop_first())
    }
}

/// Profit from buying the item on the flea market and selling it to the
/// best trader: zero when no flea buy offer exists.
pub open spec fn spec_buy_from_flea_profit(item: Item) -> int {
    match first_flea_buy(item.buys@) {
        None => 0,
        Some(f) => (match max_sell_sel(item.sells@) {
            None => 0,
            Some(s) => s.price_rub as int,
        }) - f.price_rub,
    }
}

/// Profit from buying at the cheapest trader and selling on the flea
/// market: zero when no buy offer, or no flea sell offer, exists.
pub open spec fn spec_buy_from_trader_profit(item: Item) -> int {
    match min_buy_sel(item.buys@) {
        None => 0,
        Some(m) => match first_flea_sell(item.sells@) {
            None => 0,
            Some(f) => f.price_rub - m.price_rub,
        },
    }
}

fn str_is_flea(s: &String) -> (r: bool)
    ensures
        r == (s@ == "Flea Market"@),
{
    let flea = String::from_str("Flea Market");
    s.eq(&flea)
}


/// Finds the first flea-market buy offer, as an index.
fn find_flea_buy(buys: &Vec<BuyFor>) -> (r: Option<usize>)
    ensures
        match r {
            Some(j) => j < buys@.len() && first_flea_buy(buys@) == Some(buys@[j as int]),
            None => first_flea_buy(buys@) is None,
        },
{
    let mut j: usize = 0;
    proof {
        assert(buys@.skip(0) =~= buys@);
    }
    while j < buys.len()
        invariant
            j <= buys@.len(),
            first_flea_buy(buys@) == first_flea_buy(buys@.skip(j as int)),
        decreases buys@.len() - j,
    {
        let b: &BuyFor = &buys[j];
        proof {
            assert(buys@.skip(j as int).first() == buys@[j as int]);
            assert(buys@.skip(j as int).drop_first() =~= buys@.skip(j + 1));
        }
        if str_is_flea(&b.vendor.trader_name) {
            return Some(j);
        }
        j = j + 1;
    }
    proof {
        assert(buys@.skip(buys@.len() as int).len() == 0);
    }
    None
}

/// Finds the first flea-market sell offer, as an index.
fn find_flea_sell(sells: &Vec<SellFor>) -> (r: Option<usize>)
    ensures
        match r {
            Some(j) => j < sells@.len() && first_flea_sell(sells@) == Some(sells@[j as int]),
            None => first_flea_sell(sells@) is None,
        },
{
    let mut j: usize = 0;
    proof {
        assert(sells@.skip(0) =~= sells@);
    }
    while j < sells.len()
        invariant
            j <= sells@.len(),
            first_flea_sell(sells@) == first_flea_sell(sells@.skip(j as int)),
        decreases sells@.len() - j,
    {
        let se: &SellFor = &sells[j];
        proof {
            assert(sells@.skip(j as int).first() == sells@[j as int]);
            assert(sells@.skip(j as int).drop_first() =~= sells@.skip(j + 1));
        }
        if str_is_flea(&se.vendor.trader_name) {
            return Some(j);
        }
        j = j + 1;
    }
    proof {
        assert(sells@.skip(sells@.len() as int).len() == 0);
    }
    None
}

/// Computes the flea-buy instant profit column: what buying at the flea
/// price and selling to the best non-flea trader yields.
pub fn buy_from_flea_instant_profit(item: &Item) -> (r: i32)
    requires
        forall|i: int|
            0 <= i < item.buys@.len() ==> price_in_range(#[trigger] item.buys@[i].price_rub as int),
        forall|i: int|
            0 <= i < item.sells@.len() ==> price_in_range(
                #[trigger] item.sells@[i].price_rub as int,
            ),
    ensures
        r as int == spec_buy_from_flea_profit(*item),
{
    let mut best: Option<(i32, i32)> = None;
    let mut i: usize = 0;
    while i < item.sells.len()
        invariant
            i <= item.sells@.len(),
            forall|k: int|
                0 <= k < item.sells@.len() ==> price_in_range(
                    #[trigger] item.sells@[k].price_rub as int,
                ),
            match max_sell_sel(item.sells@.take(i as int)) {
                None => best is None,
                Some(p) => (match best {
                    Some((bp, bk)) => bp == p.price_rub && bk as int == sell_key(p)
                        && price_in_range(bp as int),
                    None => false,
                }),
            },
        decreases item.sells@.len() - i,
    {
        let s: &SellFor = &item.sells[i];
        let key: i32 = if str_is_flea(&s.vendor.trader_name) {
            0
        } else {
            s.price_rub
        };
        proof {
            assert(item.sells@.take(i + 1).drop_last() =~= item.sells@.take(i as int));
            assert(item.sells@.take(i + 1).last() == item.sells@[i as int]);
        }
        match best {
            None => {
                best = Some((s.price_rub, key));
            },
            Some((_, bk)) => {
                if key >= bk {
                    best = Some((s.price_rub, key));
                }
            },
        }
        i = i + 1;
    }
    proof {
        assert(item.sells@.take(item.sells@.len() as int) =~= item.sells@);
    }
    match find_flea_buy(&item.buys) {
        None => 0,
        Some(j) => {
            let b: &BuyFor = &item.buys[j];
            let max_price: i32 = match best {
                Some((p, _)) => p,
                None => 0,
            };
            max_price - b.price_rub
        },
    }
}

/// Computes the trader-buy instant profit column: what buying at the
/// cheapest non-flea trader and selling on the flea market yields.
pub fn buy_from_trader_instant_profit(item: &Item) -> (r: i32)
    requires
        forall|i: int|
            0 <= i < item.buys@.len() ==> price_in_range(#[trigger] item.buys@[i].price_rub as int),
        forall|i: int|
            0 <= i < item.sells@.len() ==> price_in_range(
                #[trigger] item.sells@[i].price_rub as int,
            ),
    ensures
        r as int == spec_buy_from_trader_profit(*item),
{
    let mut best: Option<(i32, i32)> = None;
    let mut i: usize = 0;
    while i < item.buys.len()
        invariant
            i <= item.buys@.len(),
            forall|k: int|
                0 <= k < item.buys@.len() ==> price_in_range(
                    #[trigger] item.buys@[k].price_rub as int,
                ),
            match min_buy_sel(item.buys@.take(i as int)) {
                None => best is None,
                Some(p) => (match best {
                    Some((bp, bk)) => bp == p.price_rub && bk as int == buy_key(p)
                        && price_in_range(bp as int),
                    None => false,
                }),
            },
        decreases item.buys@.len() - i,
    {
        let b: &BuyFor = &item.buys[i];
        let key: i32 = if str_is_flea(&b.vendor.trader_name) {
            0
        } else {
            b.price_rub
        };
        proof {
            assert(item.buys@.take(i + 1).drop_last() =~= item.buys@.take(i as int));
            assert(item.buys@.take(i + 1).last() == item.buys@[i as int]);
        }
        match best {
            None => {
                best = Some((b.price_rub, key));
            },
            Some((_, bk)) => {
                if key < bk {
                    best = Some((b.price_rub, key));
                }
            },
        }
        i = i + 1;
    }
    proof {
        assert(item.buys@.take(item.buys@.len() as int) =~= item.buys@);
    }
    let min_buy_price: i32 = match best {
        None => {
            return 0;
        },
        Some((p, _)) => p,
    };
    match find_flea_sell(&item.sells) {
        None => 0,
        Some(j) => {
            let se: &SellFor = &item.sells[j];
            se.price_rub - min_buy_price
        },
    }
}

/// The best sell price per inventory slot.
pub open spec fn spec_per_slot(item: Item) -> int {
    match max_rub_sel(item.sells@) {
        None => 0,
        Some(s) => (s.price_rub as int) / (item.width * item.height),
    }
}

/// Computes the per-slot value column.
pub fn per_slot(item: &Item) -> (r: i32)
    requires
        1 <= item.width,
        1 <= item.height,
        item.width * item.height <= i32::MAX,
        forall|i: int|
            0 <= i < item.sells@.len() ==> 0 <= #[trigger] item.sells@[i].price_rub,
    ensures
        r as int == spec_per_slot(*item),
{
    let mut best: Option<i32> = None;
    let mut i: usize = 0;
    while i < item.sells.len()
        invariant
            i <= item.sells@.len(),
            match max_rub_sel(item.sells@.take(i as int)) {
                None => best is None,
                Some(p) => best == Some(p.price_rub),
            },
        decreases item.sells@.len() - i,
    {
        let s: &SellFor = &item.sells[i];
        proof {
            assert(item.sells@.take(i + 1).drop_last() =~= item.sells@.take(i as int));
            assert(item.sells@.take(i + 1).last() == item.sells@[i as int]);
        }
        match best {
            None => {
                best = Some(s.price_rub);
            },
            Some(bp) => {
                if s.price_rub >= bp {
                    best = Some(s.price_rub);
                }
            },
        }
        i = i + 1;
    }
    proof {
        assert(item.sells@.take(item.sells@.len() as int) =~= item.sells@);
    }
    match best {
        None => 0,
        Some(p) => {
            proof {
                assert(max_rub_sel(item.sells@) matches Some(q) && q.price_rub == p);
                let q = max_rub_sel(item.sells@)->Some_0;
                lemma_max_rub_in(item.sells@);
                let w = choose|w: int| 0 <= w < item.sells@.len() && item.sells@[w] == q;
                assert(0 <= item.sells@[w].price_rub);
                assert(0 <= p);
            }
            let area: i32 = item.width * item.height;
            proof {
                assert(1 <= area) by (nonlinear_arith)
                    requires
                        area == item.width * item.height,
                        1 <= item.width,
                        1 <= item.height;
            }
            p / area
        },
    }
}

/// The selected best sell offer is one of the offers.
proof fn lemma_max_rub_in(sells: Seq<SellFor>)
    ensures
        match max_rub_sel(sells) {
            None => true,
            Some(p) => exists|i: int| 0 <= i < sells.len() && sells[i] == p,
        },
    decreases sells.len(),
{
    if sells.len() > 0 {
        lemma_max_rub_in(sells.drop_last());
        match max_rub_sel(sells) {
            None => {},
            Some(p) => {
                if p == sells.last() {
                    assert(sells[sells.len() - 1] == p);
                } else {
                    let i = choose|i: int|
                        0 <= i < sells.drop_last().len() && sells.drop_last()[i] == p;
                    assert(sells[i] == p);
                }
            },
        }
    }
}

/// The price samples recorded after an upstream refresh: every item with a
/// flea buy offer contributes its id and that offer's rouble price.
pub open spec fn spec_flea_samples(items: Seq<Item>) -> Seq<(String, i32)>
    decreases items.len(),
{
    if items.len() == 0 {
        Seq::empty()
    } else {
        let rest = spec_flea_samples(items.drop_last());
        match first_flea_buy(items.last().buys@) {
            None => rest,
            Some(f) => rest.push((items.last()._id, f.price_rub)),
        }
    }
}

/// Collects the flea price samples of a snapshot.
pub fn flea_price_samples(items: &Vec<Item>) -> (r: Vec<(String, i32)>)
    ensures
        r@ == spec_flea_samples(items@),
{
    let mut out: Vec<(String, i32)> = Vec::new();
    let mut i: usize = 0;
    proof {
        assert(out@ =~= spec_flea_samples(items@.take(0)));
    }
    while i < items.len()
        invariant
            i <= items@.len(),
            out@ == spec_flea_samples(items@.take(i as int)),
        decreases items@.len() - i,
    {
        let item: &Item = &items[i];
        proof {
            assert(items@.take(i + 1).drop_last() =~= items@.take(i as int));
            assert(items@.take(i + 1).last() == items@[i as int]);
        }
        match find_flea_buy(&item.buys) {
            None => {},
            Some(j) => {
                let b: &BuyFor = &item.buys[j];
                out.push((item._id.clone(), b.price_rub));
            },
        }
        i = i + 1;
    }
    proof {
        assert(items@.take(items@.len() as int) =~= items@);
    }
    out
}

/// The flattened relation rows a task persists: its joined status labels,
/// the prerequisite's id, and the task's own id.
pub fn task_requirement_rows(task: &Task) -> (r: Vec<(String, String, String)>)
    ensures
        r@.len() == task.task_requirements@.len(),
        forall|i: int|
            0 <= i < r@.len() ==> {
                let q = task.task_requirements@[i];
                &&& (#[trigger] r@[i]).0@ == spec_join(str_views(q.status@), ", "@)
                &&& r@[i].1 == q.req_task_id.id
                &&& r@[i].2 == task._id
            },
{
    let mut out: Vec<(String, String, String)> = Vec::new();
    let mut i: usize = 0;
    while i < task.task_requirements.len()
        invariant
            i <= task.task_requirements@.len(),
            out@.len() == i,
            forall|k: int|
                0 <= k < i ==> {
                    let q = task.task_requirements@[k];
                    &&& (#[trigger] out@[k]).0@ == spec_join(str_views(q.status@), ", "@)
                    &&& out@[k].1 == q.req_task_id.id
                    &&& out@[k].2 == task._id
                },
        decreases task.task_requirements@.len() - i,
    {
        let q: &TaskRequirement = &task.task_requirements[i];
        let joined = crate::strutil::join_with(&q.status, ", ");
        out.push((joined, q.req_task_id.id.clone(), task._id.clone()));
        i = i + 1;
    }
    out
}

/// The flattened objective rows a task persists: joined map names and
/// wikis, the defaulted count, and the needed item ids.
pub fn objective_rows(task: &Task) -> (r: Vec<crate::types::Objective>)
    ensures
        r@.len() == task.objectives@.len(),
        forall|i: int|
            0 <= i < r@.len() ==> {
                let o = task.objectives@[i];
                let row = #[trigger] r@[i];
                &&& row.obj_type == o.obj_type
                &&& row.obj_description == o.obj_description
                &&& row.map_name@ == spec_join(
                    o.maps@.map_values(|m: TaskMap| m.name@),
                    ", "@,
                )
                &&& row.map_wiki@ == spec_join(
                    o.maps@.map_values(|m: TaskMap| m.wiki@),
                    ", "@,
                )
                &&& row.count == (match o.count {
                    Some(c) => c,
                    None => 0,
                })
                &&& str_views(row.needed_item_ids@) == (match o.items {
                    Some(its) => its@.map_values(|x: NeededItem| x._id@),
                    None => Seq::<Seq<char>>::empty(),
                })
                &&& row.task_id == task._id
                &&& row.id == 0
            },
{
    let mut out: Vec<crate::types::Objective> = Vec::new();
    let mut i: usize = 0;
    while i < task.objectives.len()
        invariant
            i <= task.objectives@.len(),
            out@.len() == i,
            forall|k: int|
                0 <= k < i ==> {
                    let o = task.objectives@[k];
                    let row = #[trigger] out@[k];
                    &&& row.obj_type == o.obj_type
                    &&& row.obj_description == o.obj_description
                    &&& row.map_name@ == spec_join(
                        o.maps@.map_values(|m: TaskMap| m.name@),
                        ", "@,
                    )
                    &&& row.map_wiki@ == spec_join(
                        o.maps@.map_values(|m: TaskMap| m.wiki@),
                        ", "@,
                    )
                    &&& row.count == (match o.count {
                        Some(c) => c,
                        None => 0,
                    })
                    &&& str_views(row.needed_item_ids@) == (match o.items {
                        Some(its) => its@.map_values(|x: NeededItem| x._id@),
                        None => Seq::<Seq<char>>::empty(),
                    })
                    &&& row.task_id == task._id
                    &&& row.id == 0
                },
        decreases task.objectives@.len() - i,
    {
        let o: &Objective = &task.objectives[i];
        let mut names: Vec<String> = Vec::new();
        let mut wikis: Vec<String> = Vec::new();
        let mut w: usize = 0;
        while w < o.maps.len()
            invariant
                w <= o.maps@.len(),
                names@.len() == w,
                wikis@.len() == w,
                forall|k: int| 0 <= k < w ==> (#[trigger] names@[k])@ == o.maps@[k].name@,
                forall|k: int| 0 <= k < w ==> (#[trigger] wikis@[k])@ == o.maps@[k].wiki@,
            decreases o.maps@.len() - w,
        {
            let m: &TaskMap = &o.maps[w];
            names.push(m.name.clone());
            wikis.push(m.wiki.clone());
            w = w + 1;
        }
        proof {
            assert(str_views(names@) =~= o.maps@.map_values(|mm: TaskMap| mm.name@));
            assert(str_views(wikis@) =~= o.maps@.map_values(|mm: TaskMap| mm.wiki@));
        }
        let map_name = crate::strutil::join_with(&names, ", ");
        let map_wiki = crate::strutil::join_with(&wikis, ", ");
        let count: i32 = match &o.count {
            Some(c) => *c,
            None => 0,
        };
        let mut ids: Vec<String> = Vec::new();
        match &o.items {
            Some(its) => {
                let mut w2: usize = 0;
                while w2 < its.len()
                    invariant
                        w2 <= its@.len(),
                        ids@.len() == w2,
                        forall|k: int| 0 <= k < w2 ==> (#[trigger] ids@[k])@ == its@[k]._id@,
                    decreases its@.len() - w2,
                {
                    ids.push(its[w2]._id.clone());
                    w2 = w2 + 1;
                }
                proof {
                    assert(str_views(ids@) =~= its@.map_values(|x: NeededItem| x._id@));
                }
            },
            None => {
                proof {
                    assert(str_views(ids@) =~= Seq::<Seq<char>>::empty());
                }
            },
        }
        out.push(crate::types::Objective {
            id: 0,
            obj_type: o.obj_type.clone(),
            obj_description: o.obj_description.clone(),
            map_name,
            map_wiki,
            task_id: task._id.clone(),
            count,
            needed_item_ids: ids,
        });
        i = i + 1;
    }
    out
}

} // verus!
