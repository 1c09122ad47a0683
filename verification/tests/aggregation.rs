//! Aggregator behaviour: recompute correctness, zero-fill, idempotence.

use uptime_core::aggregate::collect_status;
use uptime_core::config::{Config, ConfigService};
use uptime_core::store::{HeartbeatStore, SnapshotStore};

// 100 days after the epoch, midnight.
const DAY: i64 = 8_640_000;

fn push_config(name: &str, token: &str) -> Config {
    Config {
        bind_addr: "0.0.0.0".to_string(),
        bind_port: 3000,
        db_url: "sqlite::memory:".to_string(),
        services: vec![ConfigService::Push {
            name: name.to_string(),
            description: "a push service".to_string(),
            token: token.to_string(),
        }],
    }
}

#[test]
fn recompute_counts_full_bucket() {
    // Heartbeats at 09:03, 09:47 and 09:51; the aggregator runs at 10:00.
    let cfg = push_config("api", "tok");
    let mut hb = HeartbeatStore::new();
    hb.insert("push:api".to_string(), DAY + 9 * 3600 + 3 * 60);
    hb.insert("push:api".to_string(), DAY + 9 * 3600 + 47 * 60);
    hb.insert("push:api".to_string(), DAY + 9 * 3600 + 51 * 60);
    let mut snaps = SnapshotStore::new();
    collect_status(&cfg, &hb, &mut snaps, DAY + 10 * 3600);

    // The 09:00 bucket holds exactly 3; the 10:00 bucket exists and holds 0.
    let name = "push:api".to_string();
    assert_eq!(snaps.find(&name, DAY + 9 * 3600), Some(3));
    assert_eq!(snaps.find(&name, DAY + 10 * 3600), Some(0));
    assert_eq!(snaps.len(), 2);
}

#[test]
fn zero_fill_configured_service_without_heartbeats() {
    let cfg = push_config("quiet", "tok");
    let hb = HeartbeatStore::new();
    let mut snaps = SnapshotStore::new();
    let now = DAY + 5 * 3600 + 17 * 60;
    collect_status(&cfg, &hb, &mut snaps, now);

    let name = "push:quiet".to_string();
    // A snapshot exists for the current and previous hour, both zero — not
    // merely absent.
    assert_eq!(snaps.find(&name, DAY + 5 * 3600), Some(0));
    assert_eq!(snaps.find(&name, DAY + 4 * 3600), Some(0));
}

#[test]
fn aggregation_is_idempotent() {
    let cfg = push_config("api", "tok");
    let mut hb = HeartbeatStore::new();
    hb.insert("push:api".to_string(), DAY + 9 * 3600 + 100);
    hb.insert("push:api".to_string(), DAY + 9 * 3600 + 200);
    let mut snaps = SnapshotStore::new();
    let now = DAY + 9 * 3600 + 30 * 60;

    collect_status(&cfg, &hb, &mut snaps, now);
    let name = "push:api".to_string();
    let first_current = snaps.find(&name, DAY + 9 * 3600);
    let first_previous = snaps.find(&name, DAY + 8 * 3600);
    let first_len = snaps.len();

    collect_status(&cfg, &hb, &mut snaps, now);
    assert_eq!(snaps.find(&name, DAY + 9 * 3600), first_current);
    assert_eq!(snaps.find(&name, DAY + 8 * 3600), first_previous);
    assert_eq!(snaps.len(), first_len);
    assert_eq!(first_current, Some(2));
    assert_eq!(first_previous, Some(0));
}

#[test]
fn aggregation_never_decreases_on_new_heartbeats() {
    let cfg = push_config("api", "tok");
    let mut hb = HeartbeatStore::new();
    hb.insert("push:api".to_string(), DAY + 9 * 3600 + 100);
    let mut snaps = SnapshotStore::new();
    let now = DAY + 9 * 3600 + 30 * 60;
    collect_status(&cfg, &hb, &mut snaps, now);
    let name = "push:api".to_string();
    assert_eq!(snaps.find(&name, DAY + 9 * 3600), Some(1));

    // A heartbeat lands after the run; the next run picks it up.
    hb.insert("push:api".to_string(), DAY + 9 * 3600 + 2000);
    collect_status(&cfg, &hb, &mut snaps, now + 240);
    assert_eq!(snaps.find(&name, DAY + 9 * 3600), Some(2));
}

#[test]
fn aggregation_ignores_events_outside_lookback() {
    let cfg = push_config("api", "tok");
    let mut hb = HeartbeatStore::new();
    // 4 hours old: outside the 3-hour lookback.
    hb.insert("push:api".to_string(), DAY + 5 * 3600);
    // In the current hour.
    hb.insert("push:api".to_string(), DAY + 9 * 3600 + 60);
    let mut snaps = SnapshotStore::new();
    collect_status(&cfg, &hb, &mut snaps, DAY + 9 * 3600 + 120);

    let name = "push:api".to_string();
    assert_eq!(snaps.find(&name, DAY + 9 * 3600), Some(1));
    // The old event's bucket is not a target bucket, so no snapshot exists.
    assert_eq!(snaps.find(&name, DAY + 5 * 3600), None);
}

#[test]
fn aggregation_separates_services_and_buckets() {
    let cfg = Config {
        bind_addr: "0.0.0.0".to_string(),
        bind_port: 3000,
        db_url: "sqlite::memory:".to_string(),
        services: vec![
            ConfigService::Push {
                name: "a".to_string(),
                description: "first".to_string(),
                token: "t1".to_string(),
            },
            ConfigService::Push {
                name: "b".to_string(),
                description: "second".to_string(),
                token: "t2".to_string(),
            },
        ],
    };
    let mut hb = HeartbeatStore::new();
    hb.insert("push:a".to_string(), DAY + 9 * 3600 + 60);
    hb.insert("push:b".to_string(), DAY + 9 * 3600 + 61);
    hb.insert("push:b".to_string(), DAY + 8 * 3600 + 30 * 60);
    let mut snaps = SnapshotStore::new();
    collect_status(&cfg, &hb, &mut snaps, DAY + 9 * 3600 + 300);

    assert_eq!(snaps.find(&"push:a".to_string(), DAY + 9 * 3600), Some(1));
    assert_eq!(snaps.find(&"push:a".to_string(), DAY + 8 * 3600), Some(0));
    assert_eq!(snaps.find(&"push:b".to_string(), DAY + 9 * 3600), Some(1));
    assert_eq!(snaps.find(&"push:b".to_string(), DAY + 8 * 3600), Some(1));
}
