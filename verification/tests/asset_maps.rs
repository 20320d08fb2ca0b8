use liquers_core::asset_maps::{is_stale_terminal, AssetMaps, CachedStep};
use liquers_core::assets::Status;

#[test]
fn remove_key_asset_if_respects_id() {
    let mut manager = AssetMaps::new();
    let key = "counted.txt";

    let first = manager.next_id();
    manager.insert_key_asset(key, first);

    let second = manager.next_id();
    manager.remove_key_asset(key);
    manager.insert_key_asset(key, second);

    assert!(
        !manager.remove_key_asset_if(key, first),
        "the stale id must not match"
    );
    assert_eq!(
        manager.lookup_key_asset(key),
        Some(second),
        "the replacement survives"
    );

    assert!(manager.remove_key_asset_if(key, second));
    assert!(manager.lookup_key_asset(key).is_none());
}

#[test]
fn asset_ids_start_at_1000_and_count_up() {
    let mut maps = AssetMaps::new();
    assert_eq!(maps.next_id(), 1000);
    assert_eq!(maps.next_id(), 1001);
    assert_eq!(maps.next_id(), 1002);
}

#[test]
fn new_maps_are_empty() {
    let maps = AssetMaps::new();
    assert_eq!(maps.lookup_key_asset("a.txt"), None);
    assert_eq!(maps.lookup_query_asset("a"), None);
}

#[test]
fn insert_key_asset_keeps_the_registered_asset() {
    let mut maps = AssetMaps::new();
    maps.insert_key_asset("data/a.txt", 7);
    maps.insert_key_asset("data/a.txt", 8);
    assert_eq!(maps.lookup_key_asset("data/a.txt"), Some(7));
    maps.insert_key_asset("data/b.txt", 8);
    assert_eq!(maps.lookup_key_asset("data/b.txt"), Some(8));
    assert_eq!(maps.lookup_key_asset("data/a.txt"), Some(7));
}

#[test]
fn remove_key_asset_drops_only_that_key() {
    let mut maps = AssetMaps::new();
    maps.insert_key_asset("a", 1);
    maps.insert_key_asset("b", 2);
    maps.remove_key_asset("a");
    assert_eq!(maps.lookup_key_asset("a"), None);
    assert_eq!(maps.lookup_key_asset("b"), Some(2));
    maps.remove_key_asset("missing");
    assert_eq!(maps.lookup_key_asset("b"), Some(2));
}

#[test]
fn nonvolatile_query_asset_is_created_once() {
    let mut maps = AssetMaps::new();
    let first = maps.get_nonvolatile_query_asset("hello/greet");
    assert_eq!(first, 1000);
    assert_eq!(maps.get_nonvolatile_query_asset("hello/greet"), 1000);
    assert_eq!(maps.lookup_query_asset("hello/greet"), Some(1000));
    assert_eq!(maps.get_nonvolatile_query_asset("other"), 1001);
    assert_eq!(maps.next_id(), 1002);
    assert_eq!(maps.lookup_key_asset("hello/greet"), None);
}

#[test]
fn expired_asset_is_removed_from_the_query_map_first() {
    let mut maps = AssetMaps::new();
    let id = maps.get_nonvolatile_query_asset("q");
    maps.insert_key_asset("k", id);
    assert!(maps.remove_expired_from_maps(id, Some("q"), Some("k")));
    assert_eq!(maps.lookup_query_asset("q"), None);
    assert_eq!(maps.lookup_key_asset("k"), Some(id));
}

#[test]
fn expired_asset_falls_back_to_the_key_map() {
    let mut maps = AssetMaps::new();
    maps.insert_key_asset("k", 5);
    assert!(maps.remove_expired_from_maps(5, Some("q"), Some("k")));
    assert_eq!(maps.lookup_key_asset("k"), None);
}

#[test]
fn expired_asset_does_not_evict_a_replacement() {
    let mut maps = AssetMaps::new();
    maps.insert_key_asset("k", 6);
    let q = maps.get_nonvolatile_query_asset("q");
    assert!(!maps.remove_expired_from_maps(5, Some("q"), Some("k")));
    assert_eq!(maps.lookup_key_asset("k"), Some(6));
    assert_eq!(maps.lookup_query_asset("q"), Some(q));
}

#[test]
fn ad_hoc_asset_has_no_map_entry() {
    let mut maps = AssetMaps::new();
    maps.insert_key_asset("k", 5);
    assert!(!maps.remove_expired_from_maps(5, None, None));
    assert_eq!(maps.lookup_key_asset("k"), Some(5));
}

#[test]
fn stale_terminal_statuses() {
    for s in [Status::Expired, Status::Error, Status::Cancelled, Status::Volatile] {
        assert!(is_stale_terminal(s), "{s:?}");
    }
    for s in [
        Status::Nothing,
        Status::Directory,
        Status::Recipe,
        Status::Submitted,
        Status::Dependencies,
        Status::Processing,
        Status::Partial,
        Status::Storing,
        Status::Ready,
        Status::Source,
        Status::Override,
    ] {
        assert!(!is_stale_terminal(s), "{s:?}");
    }
}

#[test]
fn volatile_keyed_asset_is_evicted_and_looked_up_again() {
    let mut maps = AssetMaps::new();
    let id = maps.next_id();
    maps.insert_key_asset("counted.txt", id);
    assert_eq!(
        maps.settle_key_asset("counted.txt", id, Status::Volatile),
        CachedStep::Evicted
    );
    assert_eq!(maps.lookup_key_asset("counted.txt"), None);
}

#[test]
fn stale_settle_spares_a_replacement() {
    let mut maps = AssetMaps::new();
    maps.insert_key_asset("counted.txt", 2000);
    assert_eq!(
        maps.settle_key_asset("counted.txt", 1999, Status::Error),
        CachedStep::Evicted
    );
    assert_eq!(maps.lookup_key_asset("counted.txt"), Some(2000));
}

#[test]
fn finished_asset_is_served_and_pending_one_runs() {
    let mut maps = AssetMaps::new();
    maps.insert_key_asset("a", 1);
    assert_eq!(maps.settle_key_asset("a", 1, Status::Ready), CachedStep::Serve);
    assert_eq!(maps.settle_key_asset("a", 1, Status::Source), CachedStep::Serve);
    assert_eq!(maps.settle_key_asset("a", 1, Status::Recipe), CachedStep::Run);
    assert_eq!(maps.settle_key_asset("a", 1, Status::Processing), CachedStep::Run);
    assert_eq!(maps.lookup_key_asset("a"), Some(1));
}

#[test]
fn volatile_query_asset_is_recomputed() {
    let mut maps = AssetMaps::new();
    let first = maps.get_nonvolatile_query_asset("counted");
    assert_eq!(
        maps.settle_query_asset("counted", first, Status::Volatile),
        CachedStep::Evicted
    );
    let second = maps.get_nonvolatile_query_asset("counted");
    assert_ne!(second, first);
    assert_eq!(
        maps.settle_query_asset("counted", second, Status::Ready),
        CachedStep::Serve
    );
    assert_eq!(maps.lookup_query_asset("counted"), Some(second));
}
