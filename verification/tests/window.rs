//! Window view builder: gap-awareness, trailing trim, pivot alignment.

use uptime_core::config::{Config, ConfigService};
use uptime_core::store::SnapshotStore;
use uptime_core::view::{build_response, compute_stat};

// 2024-01-01T00:00:00+00:00.
const Y2024: i64 = 1_704_067_200;

fn one_service_config() -> Config {
    Config {
        bind_addr: "0.0.0.0".to_string(),
        bind_port: 3000,
        db_url: "sqlite::memory:".to_string(),
        services: vec![ConfigService::Push {
            name: "api".to_string(),
            description: "the api".to_string(),
            token: "tok".to_string(),
        }],
    }
}

#[test]
fn trailing_gaps_trimmed_to_five_samples() {
    // Snapshots only for the last 5 hours (slots 0 through 4).
    let name = "push:api".to_string();
    let pivot = Y2024 + 10 * 3600;
    let mut snaps = SnapshotStore::new();
    for i in 0..5i64 {
        snaps.upsert(&name, pivot - i * 3600, (10 + i) as i32);
    }
    let stat = compute_stat(&snaps, &name, pivot);
    assert_eq!(stat.len(), 5);
    for i in 0..5usize {
        assert_eq!(stat[i], Some((10 + i as i64) as i32));
    }
}

#[test]
fn interior_gap_preserved_tail_trimmed() {
    // Snapshots for hours 0, 1 and 3; hour 2 absent; nothing beyond 3.
    let name = "push:api".to_string();
    let pivot = Y2024 + 10 * 3600;
    let mut snaps = SnapshotStore::new();
    snaps.upsert(&name, pivot, 7);
    snaps.upsert(&name, pivot - 3600, 8);
    snaps.upsert(&name, pivot - 3 * 3600, 9);
    let stat = compute_stat(&snaps, &name, pivot);
    assert_eq!(stat.len(), 4);
    assert_eq!(stat[0], Some(7));
    assert_eq!(stat[1], Some(8));
    assert_eq!(stat[2], None);
    assert_eq!(stat[3], Some(9));
}

#[test]
fn gap_is_absent_not_zero() {
    // A zero count and a missing row render differently.
    let name = "push:api".to_string();
    let pivot = Y2024 + 10 * 3600;
    let mut snaps = SnapshotStore::new();
    snaps.upsert(&name, pivot, 0);
    snaps.upsert(&name, pivot - 2 * 3600, 4);
    let stat = compute_stat(&snaps, &name, pivot);
    assert_eq!(stat.len(), 3);
    assert_eq!(stat[0], Some(0));
    assert_eq!(stat[1], None);
    assert_eq!(stat[2], Some(4));
}

#[test]
fn all_gaps_give_empty_window() {
    let name = "push:api".to_string();
    let snaps = SnapshotStore::new();
    let stat = compute_stat(&snaps, &name, Y2024);
    assert_eq!(stat.len(), 0);
}

#[test]
fn window_covers_48_hours_at_most() {
    let name = "push:api".to_string();
    let pivot = Y2024 + 100 * 3600;
    let mut snaps = SnapshotStore::new();
    // A snapshot older than the window must not resurrect slot 48.
    snaps.upsert(&name, pivot - 48 * 3600, 3);
    snaps.upsert(&name, pivot - 47 * 3600, 2);
    let stat = compute_stat(&snaps, &name, pivot);
    assert_eq!(stat.len(), 48);
    assert_eq!(stat[47], Some(2));
    for i in 0..47usize {
        assert_eq!(stat[i], None);
    }
}

#[test]
fn response_carries_pivot_label_names_and_descriptions() {
    let cfg = one_service_config();
    let mut snaps = SnapshotStore::new();
    snaps.upsert(&"push:api".to_string(), Y2024 + 10 * 3600, 6);
    // 10:42:05 on 2024-01-01; the pivot truncates to the hour.
    let now = Y2024 + 10 * 3600 + 42 * 60 + 5;
    let r = build_response(&cfg, &snaps, now);
    assert_eq!(r.pivot, "2024-01-01T10:00:00+00:00");
    assert_eq!(r.services.len(), 1);
    assert_eq!(r.services[0].name, "push:api");
    assert_eq!(r.services[0].desc, "the api");
    assert_eq!(r.services[0].stat, vec![Some(6)]);
}

#[test]
fn response_lists_services_in_configuration_order() {
    let cfg = Config {
        bind_addr: "0.0.0.0".to_string(),
        bind_port: 3000,
        db_url: "sqlite::memory:".to_string(),
        services: vec![
            ConfigService::Poll {
                name: "db".to_string(),
                description: "the database".to_string(),
                container: "/db".to_string(),
            },
            ConfigService::Push {
                name: "api".to_string(),
                description: "the api".to_string(),
                token: "tok".to_string(),
            },
        ],
    };
    let snaps = SnapshotStore::new();
    let r = build_response(&cfg, &snaps, Y2024);
    assert_eq!(r.services.len(), 2);
    assert_eq!(r.services[0].name, "poll:db");
    assert_eq!(r.services[1].name, "push:api");
    assert!(r.services[0].stat.is_empty());
    assert!(r.services[1].stat.is_empty());
}
