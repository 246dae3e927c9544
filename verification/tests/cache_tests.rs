use catalog_core::cache::CacheStore;
use catalog_core::codec::Encodable;
use catalog_core::tags::GroupTag;
use catalog_core::types::{SavedItemData, Task, TaskBase};

fn task_base(id: &str, name: &str) -> TaskBase {
    TaskBase {
        _id: id.to_string(),
        task_name: name.to_string(),
    }
}

fn sample_task(id: &str) -> Task {
    Task {
        _id: id.to_string(),
        task_name: format!("task {id}"),
        min_player_level: -3,
        trader: "Prapor".to_string(),
        faction_name: "Any".to_string(),
        kappa_required: true,
        lightkeeper_required: false,
        wiki: "https://example.invalid/wiki".to_string(),
        objectives: Vec::new(),
        task_requirements: Vec::new(),
    }
}

#[test]
fn insert_then_get_returns_equal_value() {
    let mut cache = CacheStore::new();
    let t = sample_task("aa01");
    cache.insert("t-aa01".to_string(), &t, GroupTag::Tasks);
    let got: Task = cache.get(&"t-aa01".to_string()).expect("expected a hit");
    assert_eq!(got._id, t._id);
    assert_eq!(got.task_name, t.task_name);
    assert_eq!(got.min_player_level, t.min_player_level);
    assert_eq!(got.kappa_required, t.kappa_required);
}

#[test]
fn write_behind_read_correctness_for_vectors() {
    // A miss, a recompute, a write-behind insert, then a second read: the
    // second read must equal the freshly computed value.
    let mut cache = CacheStore::new();
    let key = "t-listing".to_string();
    let miss: Option<Vec<TaskBase>> = cache.get_vec(&key);
    assert!(miss.is_none());
    let computed = vec![task_base("a", "first"), task_base("b", "second")];
    cache.insert_vec(key.clone(), &computed, GroupTag::Tasks);
    let read: Vec<TaskBase> = cache.get_vec(&key).expect("expected a hit");
    assert_eq!(read.len(), computed.len());
    for (r, c) in read.iter().zip(computed.iter()) {
        assert_eq!(r._id, c._id);
        assert_eq!(r.task_name, c.task_name);
    }
}

#[test]
fn invalidation_is_idempotent() {
    let mut cache = CacheStore::new();
    cache.insert("t-x".to_string(), &sample_task("x"), GroupTag::Tasks);
    cache.insert("i-y".to_string(), &sample_task("y"), GroupTag::Items);
    cache.invalidate_cache_prefix(GroupTag::Tasks);
    let after_once: Option<Task> = cache.get(&"t-x".to_string());
    let other_once: Option<Task> = cache.get(&"i-y".to_string());
    cache.invalidate_cache_prefix(GroupTag::Tasks);
    let after_twice: Option<Task> = cache.get(&"t-x".to_string());
    let other_twice: Option<Task> = cache.get(&"i-y".to_string());
    assert!(after_once.is_none() && after_twice.is_none());
    assert!(other_once.is_some() && other_twice.is_some());
}

#[test]
fn group_isolation() {
    // Inserting under group A and invalidating group B must not remove
    // A's entries.
    let mut cache = CacheStore::new();
    cache.insert("i-item".to_string(), &sample_task("item"), GroupTag::Items);
    cache.invalidate_cache_prefix(GroupTag::Tasks);
    cache.invalidate_cache_prefix(GroupTag::Ammo);
    cache.invalidate_cache_prefix(GroupTag::RequiredItemsView);
    let kept: Option<Task> = cache.get(&"i-item".to_string());
    assert!(kept.is_some());
    cache.invalidate_cache_prefix(GroupTag::Items);
    let gone: Option<Task> = cache.get(&"i-item".to_string());
    assert!(gone.is_none());
}

#[test]
fn duplicate_misses_write_equal_entries() {
    // Two racers recompute the same value from the same rows; whichever
    // insert lands last, the key serves the same value.
    let mut cache = CacheStore::new();
    let key = "t-dup".to_string();
    let racer_one = vec![task_base("a", "n"), task_base("b", "m")];
    let racer_two = vec![task_base("a", "n"), task_base("b", "m")];
    cache.insert_vec(key.clone(), &racer_one, GroupTag::Tasks);
    cache.insert_vec(key.clone(), &racer_two, GroupTag::Tasks);
    let read: Vec<TaskBase> = cache.get_vec(&key).expect("expected a hit");
    assert_eq!(read.len(), 2);
    assert_eq!(read[0]._id, "a");
    assert_eq!(read[1]._id, "b");
}

#[test]
fn shape_mismatch_reads_as_miss() {
    let mut cache = CacheStore::new();
    let key = "t-shape".to_string();
    cache.insert(key.clone(), &sample_task("s"), GroupTag::Tasks);
    let as_vec: Option<Vec<Task>> = cache.get_vec(&key);
    assert!(as_vec.is_none());
    let listing = vec![task_base("a", "n")];
    cache.insert_vec(key.clone(), &listing, GroupTag::Tasks);
    let as_one: Option<TaskBase> = cache.get(&key);
    assert!(as_one.is_none());
}

#[test]
fn type_mismatch_reads_as_miss() {
    let mut cache = CacheStore::new();
    let key = "t-type".to_string();
    cache.insert(key.clone(), &sample_task("s"), GroupTag::Tasks);
    // A Task entry read as SavedItemData has trailing bytes and misses.
    let wrong: Option<SavedItemData> = cache.get(&key);
    assert!(wrong.is_none());
}

#[test]
fn codec_round_trips_unicode_and_negative_values() {
    let t = Task {
        _id: "id-검색".to_string(),
        task_name: "Großer Test ✓".to_string(),
        min_player_level: -2147483648,
        trader: String::new(),
        faction_name: "\u{10348}".to_string(),
        kappa_required: false,
        lightkeeper_required: true,
        wiki: "a\nb\tc".to_string(),
        objectives: Vec::new(),
        task_requirements: Vec::new(),
    };
    let mut bytes = Vec::new();
    t.encode(&mut bytes);
    let (back, used) = <Task as Encodable>::decode(&bytes, 0).expect("decode failed");
    assert_eq!(used, bytes.len());
    assert_eq!(back._id, t._id);
    assert_eq!(back.task_name, t.task_name);
    assert_eq!(back.min_player_level, t.min_player_level);
    assert_eq!(back.faction_name, t.faction_name);
    assert_eq!(back.lightkeeper_required, t.lightkeeper_required);
    assert_eq!(back.wiki, t.wiki);
}

#[test]
fn decoder_rejects_corrupt_bytes() {
    // Too short for the length prefix.
    assert!(<TaskBase as Encodable>::decode(&vec![1, 2, 3], 0).is_none());
    // A length prefix promising more bytes than present.
    let mut bytes: Vec<u8> = vec![255, 0, 0, 0, 0, 0, 0, 0];
    bytes.push(65);
    assert!(<String as Encodable>::decode(&bytes, 0).is_none());
    // Invalid UTF-8 payload under a correct length prefix.
    let bad = vec![2, 0, 0, 0, 0, 0, 0, 0, 0xC3, 0x28];
    assert!(<String as Encodable>::decode(&bad, 0).is_none());
    // A sign byte that is neither 0 nor 1.
    let bad_int = vec![7, 1, 0, 0, 0, 0, 0, 0, 0];
    assert!(<i64 as Encodable>::decode(&bad_int, 0).is_none());
}
