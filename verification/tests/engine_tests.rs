use catalog_core::keys::{
    adj_list_cache_key, ammo_list_cache_key, clamp_limit, item_history_cache_key,
    item_list_cache_key, required_items_cache_keys, task_list_cache_key,
};
use catalog_core::refresh::{
    refresh_step, should_evict_preferences, time_until_refresh, RefreshAction, RefreshEvent,
    RefreshPhase,
};
use catalog_core::query::{AmmoQueryParams, ItemQueryParams, TaskQueryParams};
use catalog_core::strutil::{i64_dec, join_with, str_lt, u64_dec, vec_contains_string};
use catalog_core::tags::{tags_to_invalidate, Dataset, GroupTag};

#[test]
fn decimal_rendering_is_exact() {
    assert_eq!(u64_dec(0), "0");
    assert_eq!(u64_dec(7), "7");
    assert_eq!(u64_dec(1234567890), "1234567890");
    assert_eq!(u64_dec(u64::MAX), "18446744073709551615");
    assert_eq!(i64_dec(-42), "-42");
    assert_eq!(i64_dec(0), "0");
    assert_eq!(i64_dec(i64::MIN), "-9223372036854775808");
}

#[test]
fn string_order_is_lexicographic() {
    assert!(str_lt("abc", "abd"));
    assert!(str_lt("ab", "abc"));
    assert!(!str_lt("abc", "abc"));
    assert!(!str_lt("b", "ab"));
    assert!(str_lt("", "a"));
}

#[test]
fn join_and_contains() {
    let v = vec!["one".to_string(), "two".to_string(), "three".to_string()];
    assert_eq!(join_with(&v, ", "), "one, two, three");
    assert_eq!(join_with(&Vec::new(), ", "), "");
    assert_eq!(join_with(&vec!["only".to_string()], ", "), "only");
    assert!(vec_contains_string(&v, &"two".to_string()));
    assert!(!vec_contains_string(&v, &"four".to_string()));
}

#[test]
fn refresh_cycle_walks_its_phases() {
    let d = Dataset::Tasks;
    let s1 = refresh_step(d, RefreshPhase::Sleeping, RefreshEvent::Woke, 100, 60);
    assert_eq!(s1.phase, RefreshPhase::Fetching);
    assert!(matches!(s1.action, RefreshAction::Fetch));
    assert!(s1.next_refresh_at.is_none());
    let s2 = refresh_step(d, s1.phase, RefreshEvent::FetchOk, 110, 60);
    assert_eq!(s2.phase, RefreshPhase::Persisting);
    assert!(matches!(s2.action, RefreshAction::Persist));
    let s3 = refresh_step(d, s2.phase, RefreshEvent::PersistOk, 120, 60);
    assert_eq!(s3.phase, RefreshPhase::Invalidating);
    match &s3.action {
        RefreshAction::Invalidate(tags) => {
            assert_eq!(tags, &vec![GroupTag::Tasks, GroupTag::RequiredItemsView]);
        }
        other => panic!("unexpected action {other:?}"),
    }
    let s4 = refresh_step(d, s3.phase, RefreshEvent::Invalidated, 130, 60);
    assert_eq!(s4.phase, RefreshPhase::Sleeping);
    assert_eq!(s4.next_refresh_at, Some(190));
}

#[test]
fn refresh_failures_retry_after_the_interval() {
    let d = Dataset::Items;
    let s = refresh_step(d, RefreshPhase::Fetching, RefreshEvent::FetchFailed, 500, 600);
    assert_eq!(s.phase, RefreshPhase::Sleeping);
    assert_eq!(s.next_refresh_at, Some(1100));
    let s2 = refresh_step(d, RefreshPhase::Persisting, RefreshEvent::PersistFailed, 500, 600);
    assert_eq!(s2.phase, RefreshPhase::Sleeping);
    assert_eq!(s2.next_refresh_at, Some(1100));
}

#[test]
fn mismatched_events_are_ignored() {
    let s = refresh_step(Dataset::Ammo, RefreshPhase::Sleeping, RefreshEvent::FetchOk, 0, 1);
    assert_eq!(s.phase, RefreshPhase::Sleeping);
    assert!(matches!(s.action, RefreshAction::Ignore));
}

#[test]
fn countdown_saturates_at_zero() {
    assert_eq!(time_until_refresh(150, 100), 50);
    assert_eq!(time_until_refresh(100, 100), 0);
    assert_eq!(time_until_refresh(50, 100), 0);
}

#[test]
fn stale_preferences_are_swept() {
    assert!(should_evict_preferences(10, 1000, 100));
    assert!(!should_evict_preferences(950, 1000, 100));
    assert!(!should_evict_preferences(0, 50, 100));
}

#[test]
fn derived_view_tags_follow_their_datasets() {
    assert_eq!(
        tags_to_invalidate(Dataset::Items),
        vec![GroupTag::Items, GroupTag::RequiredItemsView]
    );
    assert_eq!(tags_to_invalidate(Dataset::Ammo), vec![GroupTag::Ammo]);
}

#[test]
fn cache_keys_are_exact() {
    let ip = ItemQueryParams {
        search: "ak".to_string(),
        sort_asc: true,
        sort_by: "base_price".to_string(),
        item_type: "gun".to_string(),
        limit: 30,
        offset: 0,
        save: true,
    };
    assert_eq!(item_list_cache_key(&ip), "i1base_price30gun0ak");
    let tp = TaskQueryParams {
        search: "knock".to_string(),
        is_kappa: true,
        is_lightkeeper: false,
        obj_type: "shoot".to_string(),
        trader: "prapor".to_string(),
        player_lvl: 99,
        limit: 30,
        offset: 60,
        include_completed: true,
        save: true,
    };
    assert_eq!(task_list_cache_key(&tp, false), "t10shoot99praporl30o60knock");
    assert_eq!(task_list_cache_key(&tp, true), "tb10shoot99praporl30o60knock");
    let (counts_key, items_key) = required_items_cache_keys(&tp);
    assert_eq!(counts_key, "vc10shoot99praporknock");
    assert_eq!(items_key, "vi10shoot99praporknock");
    assert_eq!(item_history_cache_key("abc"), "iabc-history");
    assert_eq!(adj_list_cache_key(), "tadj_list");
    let ap = AmmoQueryParams {
        search: "9x19".to_string(),
        sort_by: "damage".to_string(),
        sort_asc: false,
        damage: -5,
        penetration_power: 20,
        initial_speed_bits: 0,
        ammo_type: "bullet".to_string(),
        limit: 30,
        offset: 0,
        save: false,
    };
    assert_eq!(ammo_list_cache_key(&ap, "375.5"), "a0damaged-5p20i375.5bulletl30o09x19");
}

#[test]
fn item_limit_is_clamped() {
    assert_eq!(clamp_limit(30), 30);
    assert_eq!(clamp_limit(500), 500);
    assert_eq!(clamp_limit(501), 500);
    assert_eq!(clamp_limit(u32::MAX), 500);
}
