use catalog_core::cache::CacheStore;
use catalog_core::feed;
use catalog_core::pages::{fetch_tasks_by_ids, split_cached};
use catalog_core::query::{
    count_completed, default_limit, default_player_lvl, default_true, health, normalize_or_any,
    normalize_sort_by, task_stats, AppError, AppErrorHandling,
};
use catalog_core::readpath::{
    counts_for_items, eq_ignore_ascii_case, get_required_items, group_needed_items,
    is_flea_market_sort, is_flea_sort, items_from_db_to_items, tasks_from_db_to_tasks,
};
use catalog_core::tags::GroupTag;
use catalog_core::types::{
    BuyFor, ItemBase, ItemFromDB, NeededItemsDB, Objective, SellFor, TaskBase, TaskFromDB,
    TaskRequirement,
};

fn item_row(id: &str) -> ItemFromDB {
    ItemFromDB {
        _id: id.to_string(),
        item_name: format!("item {id}"),
        short_name: id.to_string(),
        avg_24h_price: 10,
        base_price: 20,
        change_last_48h_percent_bits: 0,
        width: 1,
        height: 2,
        wiki: String::new(),
        item_types: "gun".to_string(),
        buy_from_flea_instant_profit: 0,
        buy_from_trader_instant_profit: 0,
        per_slot: 0,
        is_flea: true,
    }
}

fn buy(id: &str, item_id: &str, rub: i32) -> BuyFor {
    BuyFor {
        id: 0,
        price: rub,
        currency: "RUB".to_string(),
        price_rub: rub,
        trader_name: id.to_string(),
        min_trader_level: 1,
        buy_limit: 0,
        item_id: item_id.to_string(),
    }
}

fn sell(id: &str, item_id: &str, rub: i32) -> SellFor {
    SellFor {
        id: 0,
        price: rub,
        currency: "RUB".to_string(),
        price_rub: rub,
        trader_name: id.to_string(),
        found_in_raid_required: false,
        item_id: item_id.to_string(),
    }
}

#[test]
fn item_join_attaches_matching_offers_in_order() {
    let rows = vec![item_row("a"), item_row("b")];
    let buys = vec![buy("t1", "a", 5), buy("t2", "b", 6), buy("t3", "a", 7)];
    let sells = vec![sell("t4", "b", 8)];
    let items = items_from_db_to_items(rows, &buys, &sells);
    assert_eq!(items.len(), 2);
    assert_eq!(items[0]._id, "a");
    assert_eq!(items[0].buys.len(), 2);
    assert_eq!(items[0].buys[0].trader_name, "t1");
    assert_eq!(items[0].buys[1].trader_name, "t3");
    assert!(items[0].sells.is_empty());
    assert_eq!(items[1].buys.len(), 1);
    assert_eq!(items[1].sells.len(), 1);
    assert_eq!(items[1].sells[0].price_rub, 8);
}

fn task_row(id: &str) -> TaskFromDB {
    TaskFromDB {
        _id: id.to_string(),
        task_name: format!("task {id}"),
        min_player_level: 5,
        trader: "prapor".to_string(),
        faction_name: "Any".to_string(),
        kappa_required: false,
        lightkeeper_required: false,
        wiki: String::new(),
    }
}

fn objective(task_id: &str, desc: &str) -> Objective {
    Objective {
        id: 0,
        obj_type: "shoot".to_string(),
        obj_description: desc.to_string(),
        map_name: String::new(),
        map_wiki: String::new(),
        task_id: task_id.to_string(),
        count: 1,
        needed_item_ids: Vec::new(),
    }
}

#[test]
fn task_join_attaches_objectives_and_requirements() {
    let rows = vec![task_row("t1"), task_row("t2")];
    let objectives = vec![objective("t2", "first"), objective("t1", "second")];
    let reqs = vec![TaskRequirement {
        id: 0,
        status: "complete".to_string(),
        req_task_id: "t0".to_string(),
        task_id: "t1".to_string(),
    }];
    let tasks = tasks_from_db_to_tasks(rows, &objectives, &reqs);
    assert_eq!(tasks.len(), 2);
    assert_eq!(tasks[0].objectives.len(), 1);
    assert_eq!(tasks[0].objectives[0].obj_description, "second");
    assert_eq!(tasks[0].task_requirements.len(), 1);
    assert_eq!(tasks[0].task_requirements[0].req_task_id, "t0");
    assert_eq!(tasks[1].objectives.len(), 1);
    assert!(tasks[1].task_requirements.is_empty());
}

#[test]
fn required_items_group_and_align() {
    let values = vec![
        NeededItemsDB { count: 2, needed_item_ids: vec!["x".to_string(), "y".to_string()] },
        NeededItemsDB { count: 3, needed_item_ids: vec!["y".to_string()] },
    ];
    let groups = group_needed_items(&values);
    let items = vec![
        ItemBase { _id: "y".to_string(), item_name: "why".to_string() },
        ItemBase { _id: "x".to_string(), item_name: "ex".to_string() },
        ItemBase { _id: "z".to_string(), item_name: "zed".to_string() },
    ];
    let counts = counts_for_items(&items, &groups);
    assert_eq!(counts, vec![5, 2, 0]);
    let paired = get_required_items(items, counts);
    assert_eq!(paired.len(), 3);
    assert_eq!(paired[0].0._id, "y");
    assert_eq!(paired[0].1, 5);
    assert_eq!(paired[2].1, 0);
}

#[test]
fn sort_mode_decisions_ignore_case() {
    assert!(eq_ignore_ascii_case("Flea_Market", "flea_market"));
    assert!(!eq_ignore_ascii_case("flea", "flea_market"));
    assert!(is_flea_sort("FLEA_MARKET"));
    assert!(is_flea_sort("per_slot"));
    assert!(!is_flea_sort("base_price"));
    assert!(is_flea_market_sort("flea_market"));
    assert!(!is_flea_market_sort("per_slot"));
}

#[test]
fn defaults_and_normalization() {
    assert!(default_true());
    assert_eq!(default_player_lvl(), 99);
    assert_eq!(default_limit(), 30);
    assert_eq!(normalize_or_any(String::new()), "any");
    assert_eq!(normalize_or_any("shoot".to_string()), "shoot");
    assert_eq!(normalize_sort_by(String::new()), "base_price");
    assert_eq!(normalize_sort_by("per_slot".to_string()), "per_slot");
}

#[test]
fn health_reports_readiness() {
    assert_eq!(health(Some(1), Some(2), Some(3)).unwrap(), "Status Ok");
    assert!(health(None, Some(2), Some(3)).is_err());
    match health(Some(1), Some(0), Some(3)) {
        Err(AppError::UninitalizedDatabase(m)) => {
            assert_eq!(m, "The Database has not yet been initalized");
        }
        other => panic!("unexpected {other:?}"),
    }
}

#[test]
fn bad_sql_wraps_failures() {
    let ok: Result<i32, ()> = Ok(5);
    assert_eq!(ok.bad_sql("Items").unwrap(), 5);
    let failed: Result<i32, ()> = Err(());
    match failed.bad_sql("Items") {
        Err(AppError::BadSqlQuery(m)) => {
            assert_eq!(m, "Items Query did not run successfully");
        }
        other => panic!("unexpected {other:?}"),
    }
}

#[test]
fn stats_count_completed_subsets() {
    let completed = vec!["a".to_string(), "c".to_string()];
    let kappa = vec!["a".to_string(), "b".to_string()];
    let light = vec!["c".to_string()];
    assert_eq!(count_completed(&kappa, &completed), 1);
    let stats = task_stats(40, &completed, &kappa, &light, 700, 100);
    assert_eq!(stats.tasks_completed_count, 2);
    assert_eq!(stats.tasks_count, 40);
    assert_eq!(stats.kappa_completed_count, 1);
    assert_eq!(stats.kappa_required_count, 2);
    assert_eq!(stats.lightkeeper_completed_count, 1);
    assert_eq!(stats.lightkeeper_required_count, 1);
    assert_eq!(stats.time_till_tasks_refresh_secs, 600);
}

#[test]
fn by_id_reads_split_and_merge_sorted() {
    let mut cache = CacheStore::new();
    let cached = TaskBase { _id: "b".to_string(), task_name: "bee".to_string() };
    // Warm the cache through the same write-behind path the read uses.
    let merged = fetch_tasks_by_ids(&mut cache, vec![cached], Vec::new());
    assert_eq!(merged.len(), 1);
    let ids = vec!["a".to_string(), "b".to_string(), "c".to_string()];
    let (found, missing): (Vec<TaskBase>, Vec<String>) = split_cached(&cache, &ids);
    assert_eq!(found.len(), 1);
    assert_eq!(found[0]._id, "b");
    assert_eq!(missing, vec!["a".to_string(), "c".to_string()]);
    let fetched = vec![
        TaskBase { _id: "c".to_string(), task_name: "sea".to_string() },
        TaskBase { _id: "a".to_string(), task_name: "aye".to_string() },
    ];
    let all = fetch_tasks_by_ids(&mut cache, fetched, found);
    let got: Vec<String> = all.iter().map(|t| t._id.clone()).collect();
    assert_eq!(got, vec!["a".to_string(), "b".to_string(), "c".to_string()]);
    // The fetched records were written behind: a second split hits them.
    let (found2, missing2): (Vec<TaskBase>, Vec<String>) = split_cached(&cache, &ids);
    assert_eq!(found2.len(), 3);
    assert!(missing2.is_empty());
}

fn feed_item(id: &str, buys: Vec<feed::BuyFor>, sells: Vec<feed::SellFor>) -> feed::Item {
    feed::Item {
        _id: id.to_string(),
        item_name: id.to_string(),
        short_name: id.to_string(),
        avg_24h_price: Some(1),
        base_price: 2,
        change_last_48h_percent_bits: None,
        width: 2,
        height: 3,
        wiki: String::new(),
        item_types: vec!["gun".to_string()],
        buys,
        sells,
    }
}

fn feed_buy(trader: &str, rub: i32) -> feed::BuyFor {
    feed::BuyFor {
        price: rub,
        currency: "RUB".to_string(),
        price_rub: rub,
        vendor: feed::BuyForVendor {
            trader_name: trader.to_string(),
            min_trader_level: Some(1),
            buy_limit: None,
        },
    }
}

fn feed_sell(trader: &str, rub: i32) -> feed::SellFor {
    feed::SellFor {
        price: rub,
        currency: "RUB".to_string(),
        price_rub: rub,
        vendor: feed::SellForVendor {
            trader_name: trader.to_string(),
            sell_offer_fee_rate_bits: None,
            sell_requirement_fee_rate_bits: None,
            found_in_raid_required: Some(false),
        },
    }
}

#[test]
fn instant_profit_columns_are_exact() {
    let item = feed_item(
        "i1",
        vec![feed_buy("Prapor", 900), feed_buy("Flea Market", 1000)],
        vec![feed_sell("Therapist", 1200), feed_sell("Flea Market", 5000), feed_sell("Fence", 800)],
    );
    // Best non-flea sell is 1200; flea buy is 1000.
    assert_eq!(feed::buy_from_flea_instant_profit(&item), 200);
    // Cheapest buy ranks the flea offer as zero, so it wins; flea sell is 5000.
    assert_eq!(feed::buy_from_trader_instant_profit(&item), 4000);
    // Best sell by raw price is 5000; area is 2 x 3.
    assert_eq!(feed::per_slot(&item), 833);
}

#[test]
fn profit_columns_default_to_zero_without_flea_offers() {
    let item = feed_item("i2", vec![feed_buy("Prapor", 900)], vec![feed_sell("Fence", 800)]);
    assert_eq!(feed::buy_from_flea_instant_profit(&item), 0);
    assert_eq!(feed::buy_from_trader_instant_profit(&item), 0);
    let empty = feed_item("i3", Vec::new(), Vec::new());
    assert_eq!(feed::buy_from_flea_instant_profit(&empty), 0);
    assert_eq!(feed::buy_from_trader_instant_profit(&empty), 0);
    assert_eq!(feed::per_slot(&empty), 0);
}

#[test]
fn flea_samples_pick_the_first_flea_buy() {
    let with = feed_item("w", vec![feed_buy("Flea Market", 777), feed_buy("Flea Market", 888)], Vec::new());
    let without = feed_item("n", vec![feed_buy("Prapor", 5)], Vec::new());
    let samples = feed::flea_price_samples(&vec![without, with]);
    assert_eq!(samples.len(), 1);
    assert_eq!(samples[0].0, "w");
    assert_eq!(samples[0].1, 777);
}

#[test]
fn task_rows_flatten_for_persistence() {
    let task = feed::Task {
        _id: "t".to_string(),
        task_name: "name".to_string(),
        min_player_level: 1,
        trader: feed::Trader { name: "prapor".to_string() },
        faction_name: "Any".to_string(),
        kappa_required: true,
        lightkeeper_required: false,
        wiki: String::new(),
        objectives: vec![feed::Objective {
            obj_type: "shoot".to_string(),
            obj_description: "desc".to_string(),
            maps: vec![
                feed::TaskMap { name: "Customs".to_string(), wiki: "w1".to_string() },
                feed::TaskMap { name: "Shoreline".to_string(), wiki: "w2".to_string() },
            ],
            count: None,
            items: Some(vec![feed::NeededItem { _id: "itm".to_string() }]),
        }],
        task_requirements: vec![feed::TaskRequirement {
            status: vec!["complete".to_string(), "active".to_string()],
            req_task_id: feed::ReqTaskId { id: "prev".to_string() },
        }],
    };
    let reqs = feed::task_requirement_rows(&task);
    assert_eq!(reqs.len(), 1);
    assert_eq!(reqs[0].0, "complete, active");
    assert_eq!(reqs[0].1, "prev");
    assert_eq!(reqs[0].2, "t");
    let objs = feed::objective_rows(&task);
    assert_eq!(objs.len(), 1);
    assert_eq!(objs[0].map_name, "Customs, Shoreline");
    assert_eq!(objs[0].map_wiki, "w1, w2");
    assert_eq!(objs[0].count, 0);
    assert_eq!(objs[0].needed_item_ids, vec!["itm".to_string()]);
    assert_eq!(objs[0].task_id, "t");
}
