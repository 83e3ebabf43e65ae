use std::cmp::Ordering;
use voxelruler::mc_instance::{compare_versions, creation_sort_key, sort_instances, InstanceConfig, InstanceStore};
use voxelruler::settings::SortMode;

#[test]
fn test_compare_versions_numeric_segments() {
    assert_eq!(compare_versions("1.7.2", "1.21.7"), Ordering::Less);
    assert_eq!(compare_versions("1.7.10", "1.7.2"), Ordering::Greater);
    assert_eq!(compare_versions("1.20.4", "1.20.4"), Ordering::Equal);
}

#[test]
fn test_compare_versions_non_numeric_fallback() {
    let result = compare_versions("24w14a", "1.20.4");
    assert_eq!(result, "24w14a".cmp("1"));
}

fn cfg(id: &str) -> InstanceConfig {
    InstanceConfig {
        id: id.into(),
        ..Default::default()
    }
}

#[test]
fn test_sort_instances_by_name_ascending() {
    let mut store = InstanceStore::new("/instances".into());
    let b = InstanceConfig {
        name: "Banana".into(),
        ..cfg("b")
    };
    let a = InstanceConfig {
        name: "Apple".into(),
        ..cfg("a")
    };
    store.set_sort(SortMode::Name, true);
    let loaded = store.sort_loaded(vec![(b, 1), (a, 2)]);
    assert_eq!(loaded[0].name, "Apple");
    assert_eq!(loaded[1].name, "Banana");
}

#[test]
fn test_sort_instances_by_version_descending() {
    let mut store = InstanceStore::new("/instances".into());
    let old = InstanceConfig {
        version: "1.7.2".into(),
        ..cfg("old")
    };
    let new = InstanceConfig {
        version: "1.21.7".into(),
        ..cfg("new")
    };
    store.set_sort(SortMode::Version, false);
    let loaded = store.sort_loaded(vec![(old, 1), (new, 2)]);
    assert_eq!(loaded[0].id, "new", "1.21.7 should sort above 1.7.2 descending");
    assert_eq!(loaded[1].id, "old");
}

#[test]
fn test_sort_instances_last_played_never_played_sinks_to_bottom() {
    let mut store = InstanceStore::new("/instances".into());
    let played = || InstanceConfig {
        last_played: "2024-01-01T00:00:00Z".into(),
        ..cfg("played")
    };
    let never = || InstanceConfig {
        last_played: "".into(),
        ..cfg("never")
    };
    store.set_sort(SortMode::LastPlayed, true);
    let ascending = store.sort_loaded(vec![(played(), 1), (never(), 2)]);
    assert_eq!(ascending.last().unwrap().id, "never");

    store.set_sort(SortMode::LastPlayed, false);
    let descending = store.sort_loaded(vec![(played(), 1), (never(), 2)]);
    assert_eq!(descending.last().unwrap().id, "never");
}

#[test]
fn test_default_sort_matches_previous_created_at_behavior() {
    let store = InstanceStore::new("/instances".into());
    let old = InstanceConfig {
        created_at: 100,
        ..cfg("old")
    };
    let new = InstanceConfig {
        created_at: 200,
        ..cfg("new")
    };
    let loaded = store.sort_loaded(vec![(old, 100), (new, 200)]);
    assert_eq!(loaded[0].id, "new");
    assert_eq!(loaded[1].id, "old");
}

#[test]
fn test_record_launch_started_unknown_id_is_noop() {
    let store = InstanceStore::new("/instances".into());
    let mut master: Vec<InstanceConfig> = vec![];
    let r = store.record_launch_started(&mut master, "missing", "2024-01-01T00:00:00+00:00".into());
    assert!(r.is_none());
    assert!(master.is_empty());
}

#[test]
fn test_record_launch_started_sets_last_played() {
    let store = InstanceStore::new("/instances".into());
    let mut master = vec![InstanceConfig {
        name: "A".into(),
        ..cfg("a")
    }];
    assert!(master[0].last_played.is_empty());
    let r = store.record_launch_started(&mut master, "a", "2024-05-01T12:00:00+00:00".into());
    assert_eq!(r, Some(0));
    assert_eq!(master[0].last_played, "2024-05-01T12:00:00+00:00");
}

#[test]
fn test_record_play_session_end_accumulates_play_time() {
    let store = InstanceStore::new("/instances".into());
    let mut master = vec![InstanceConfig {
        name: "A".into(),
        play_time_secs: 100,
        ..cfg("a")
    }];
    let r = store.record_play_session_end(&mut master, "a", 42);
    assert_eq!(r, Some(0));
    assert_eq!(master[0].play_time_secs, 142);
}

#[test]
fn test_record_play_session_end_unknown_id_is_noop() {
    let store = InstanceStore::new("/instances".into());
    let mut master: Vec<InstanceConfig> = vec![];
    store.record_play_session_end(&mut master, "missing", 42);
    assert!(master.is_empty());
}

#[test]
fn play_time_goes_to_the_first_instance_with_the_id_only() {
    let store = InstanceStore::new("/instances".into());
    let mut master = vec![cfg("x"), cfg("a"), cfg("a")];
    let r = store.record_play_session_end(&mut master, "a", 10);
    assert_eq!(r, Some(1));
    assert_eq!(master[0].play_time_secs, 0);
    assert_eq!(master[1].play_time_secs, 10);
    assert_eq!(master[2].play_time_secs, 0);
}

#[test]
fn created_at_sort_ascending_puts_oldest_first() {
    let mut store = InstanceStore::new("/instances".into());
    store.set_sort(SortMode::CreatedAt, true);
    let loaded = store.sort_loaded(vec![(cfg("new"), 200), (cfg("mid"), 150), (cfg("old"), 100)]);
    let ids: Vec<&str> = loaded.iter().map(|c| c.id.as_str()).collect();
    assert_eq!(ids, vec!["old", "mid", "new"]);
}

#[test]
fn sort_instances_keeps_every_entry() {
    let mut v = vec![(cfg("c"), 3), (cfg("a"), 1), (cfg("b"), 2)];
    sort_instances(&mut v, SortMode::CreatedAt, true);
    let ids: Vec<&str> = v.iter().map(|(c, _)| c.id.as_str()).collect();
    assert_eq!(ids, vec!["a", "b", "c"]);
}

#[test]
fn instance_file_is_under_its_id() {
    let store = InstanceStore::new("/data/instances".into());
    assert_eq!(store.instance_file("w1"), "/data/instances/w1/instance.toml");
}

#[test]
fn versions_compare_numerically_then_by_length() {
    assert_eq!(compare_versions("1.20", "1.20.1"), Ordering::Less);
    assert_eq!(compare_versions("1.20.1", "1.20"), Ordering::Greater);
}

#[test]
fn test_load_sorts_by_created_at_newest_first() {
    let store = InstanceStore::new("/instances".into());
    let old = InstanceConfig {
        id: "old".into(),
        name: "Old".into(),
        created_at: 100,
        ..Default::default()
    };
    let new = InstanceConfig {
        id: "new".into(),
        name: "New".into(),
        created_at: 200,
        ..Default::default()
    };
    let loaded = store.sort_loaded(vec![(old, 100), (new, 200)]);
    assert_eq!(loaded.len(), 2);
    assert_eq!(loaded[0].id, "new", "newest instance should come first");
    assert_eq!(loaded[1].id, "old");
}

#[test]
fn creation_sort_key_prefers_created_at() {
    assert_eq!(creation_sort_key(1_700_000_000, Some(5)), 1_700_000_000);
    assert_eq!(creation_sort_key(0, Some(1_600_000_000)), 1_600_000_000);
    assert_eq!(creation_sort_key(-3, Some(42)), 42);
    assert_eq!(creation_sort_key(0, None), 0);
}

#[test]
fn version_order_laws_on_examples() {
    assert_eq!(compare_versions("1.20", "1.20.1"), Ordering::Less);
    assert_eq!(compare_versions("1.20.1", "1.20"), Ordering::Greater);
    assert_eq!(compare_versions("b.2", "b.2"), Ordering::Equal);
    assert_eq!(compare_versions("1.x", "1.10"), compare_versions("1.10", "1.x").reverse());
}
