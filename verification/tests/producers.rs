//! Producers, retention, configuration checks and time arithmetic.

use uptime_core::config::{Config, ConfigService};
use uptime_core::error::Error;
use uptime_core::ingest::{ingest, resolve_token, IngestOutcome};
use uptime_core::poll::{check_containers, ContainerInfo};
use uptime_core::store::{HeartbeatStore, SnapshotStore};
use uptime_core::sweep::clean_database;
use uptime_core::time::{check_clock, current_time, hour_bucket, next_poll_tick, MAX_TIME, RETENTION_SECONDS};

const DAY: i64 = 8_640_000;

fn mixed_config() -> Config {
    Config {
        bind_addr: "0.0.0.0".to_string(),
        bind_port: 3000,
        db_url: "sqlite::memory:".to_string(),
        services: vec![
            ConfigService::Push {
                name: "api".to_string(),
                description: "the api".to_string(),
                token: "SECRET-REDACTED".to_string(),
            },
            ConfigService::Poll {
                name: "db".to_string(),
                description: "the database".to_string(),
                container: "/db".to_string(),
            },
        ],
    }
}

#[test]
fn ingest_unknown_token_writes_nothing() {
    let cfg = mixed_config();
    let mut hb = HeartbeatStore::new();
    let before = hb.len();
    let r = ingest(&cfg, &mut hb, &"wrong-token".to_string(), DAY);
    assert_eq!(r, IngestOutcome::NotFound);
    assert_eq!(hb.len(), before);
}

#[test]
fn ingest_known_token_records_one_prefixed_heartbeat() {
    let cfg = mixed_config();
    let mut hb = HeartbeatStore::new();
    let r = ingest(&cfg, &mut hb, &"SECRET-REDACTED".to_string(), DAY + 42);
    assert_eq!(r, IngestOutcome::Accepted);
    assert_eq!(hb.len(), 1);
    assert_eq!(hb.get(0).name, "push:api");
    assert_eq!(hb.get(0).timestamp, DAY + 42);
}

#[test]
fn resolve_token_ignores_poll_entries() {
    let cfg = mixed_config();
    // A poll entry's container value is not a token.
    assert_eq!(resolve_token(&cfg.services, &"/db".to_string()), None);
    assert_eq!(
        resolve_token(&cfg.services, &"SECRET-REDACTED".to_string()),
        Some("push:api".to_string())
    );
}

#[test]
fn poll_exited_container_produces_no_heartbeat() {
    let cfg = mixed_config();
    let mut hb = HeartbeatStore::new();
    let containers = vec![ContainerInfo {
        names: vec!["/db".to_string()],
        state: "exited".to_string(),
    }];
    let inserted = check_containers(&cfg, &containers, &mut hb, DAY);
    assert_eq!(inserted, 0);
    assert_eq!(hb.len(), 0);
}

#[test]
fn poll_running_container_produces_one_prefixed_heartbeat() {
    let cfg = mixed_config();
    let mut hb = HeartbeatStore::new();
    let containers = vec![
        ContainerInfo { names: vec!["/db".to_string()], state: "running".to_string() },
        ContainerInfo { names: vec!["/other".to_string()], state: "running".to_string() },
        ContainerInfo { names: vec![], state: "running".to_string() },
    ];
    let inserted = check_containers(&cfg, &containers, &mut hb, DAY + 7);
    assert_eq!(inserted, 1);
    assert_eq!(hb.len(), 1);
    assert_eq!(hb.get(0).name, "poll:db");
    assert_eq!(hb.get(0).timestamp, DAY + 7);
}

#[test]
fn sweeper_evicts_only_past_horizon() {
    let mut hb = HeartbeatStore::new();
    let mut snaps = SnapshotStore::new();
    let now = 10 * DAY;
    let horizon = now - RETENTION_SECONDS;
    hb.insert("push:api".to_string(), horizon - 1);
    hb.insert("push:api".to_string(), horizon);
    hb.insert("push:api".to_string(), now - 60);
    snaps.upsert(&"push:api".to_string(), hour_bucket(horizon - 1), 3);
    snaps.upsert(&"push:api".to_string(), hour_bucket(now - 60), 4);

    let (removed_events, removed_snaps) = clean_database(&mut hb, &mut snaps, now);
    assert_eq!(removed_events, 1);
    assert_eq!(removed_snaps, 1);
    assert_eq!(hb.len(), 2);
    assert_eq!(hb.get(0).timestamp, horizon);
    assert_eq!(hb.get(1).timestamp, now - 60);
    assert_eq!(snaps.len(), 1);
    assert_eq!(snaps.find(&"push:api".to_string(), hour_bucket(now - 60)), Some(4));
    assert_eq!(snaps.find(&"push:api".to_string(), hour_bucket(horizon - 1)), None);
}

#[test]
fn config_verify_accepts_unique_identifiers() {
    let cfg = mixed_config();
    assert!(cfg.verify().is_ok());
}

#[test]
fn config_verify_rejects_duplicated_token() {
    let mut cfg = mixed_config();
    cfg.services.push(ConfigService::Push {
        name: "copy".to_string(),
        description: "same token".to_string(),
        token: "SECRET-REDACTED".to_string(),
    });
    let r = cfg.verify();
    assert!(r.is_err());
    let e: Error = r.err().unwrap();
    assert_eq!(e.message(), "duplicated token among push services");
}

#[test]
fn config_verify_rejects_duplicated_container() {
    let mut cfg = mixed_config();
    cfg.services.push(ConfigService::Poll {
        name: "copy".to_string(),
        description: "same container".to_string(),
        container: "/db".to_string(),
    });
    let r = cfg.verify();
    assert!(r.is_err());
    let e: Error = r.err().unwrap();
    assert_eq!(e.message(), "duplicated container among poll services");
}

#[test]
fn config_accessors_and_defaults() {
    let cfg = mixed_config();
    assert_eq!(cfg.services[0].get_name(), "api");
    assert_eq!(cfg.services[1].get_name(), "db");
    assert_eq!(cfg.services[0].get_description(), "the api");
    assert_eq!(cfg.services[0].prefixed_name(), "push:api");
    assert_eq!(cfg.services[1].prefixed_name(), "poll:db");
    assert_eq!(Config::default_bind_addr(), "0.0.0.0");
    assert_eq!(Config::default_bind_port(), 3000);
}

#[test]
fn hour_bucket_truncates_to_hour() {
    assert_eq!(hour_bucket(0), 0);
    assert_eq!(hour_bucket(3599), 0);
    assert_eq!(hour_bucket(3600), 3600);
    assert_eq!(hour_bucket(7199), 3600);
    assert_eq!(hour_bucket(DAY + 9 * 3600 + 51 * 60), DAY + 9 * 3600);
}

#[test]
fn next_poll_tick_is_aligned_and_strictly_later() {
    assert_eq!(next_poll_tick(0), 300);
    assert_eq!(next_poll_tick(780), 900);
    assert_eq!(next_poll_tick(900), 1200);
    assert_eq!(next_poll_tick(3599), 3600);
    assert_eq!(next_poll_tick(DAY + 13 * 60), DAY + 15 * 60);
}

#[test]
fn check_clock_accepts_range_and_rejects_outside() {
    assert_eq!(check_clock(0), Some(0));
    assert_eq!(check_clock(DAY), Some(DAY));
    assert_eq!(check_clock(MAX_TIME), Some(MAX_TIME));
    assert_eq!(check_clock(-1), None);
    assert_eq!(check_clock(MAX_TIME + 1), None);
    assert_eq!(check_clock(i64::MIN), None);
    assert_eq!(check_clock(i64::MAX), None);
}

#[test]
fn current_time_is_in_supported_range() {
    let t = current_time();
    assert!(t.is_some());
    let t = t.unwrap();
    assert!((0..=MAX_TIME).contains(&t));
    // This runs on a clock set after 2020.
    assert!(t > 1_577_836_800);
}
