use telemetry_agent::batcher::SyncBatcher;
use telemetry_agent::identity::{identity_or_placeholder, os_version, uptime_seconds};
use telemetry_agent::plugins::{collect_plugin_data, encode_users, info, PluginOutcome};

#[test]
fn threshold_is_lcm_of_intervals() {
    assert_eq!(SyncBatcher::<u32>::new(4, 6).unwrap().threshold(), 12);
    assert_eq!(SyncBatcher::<u32>::new(60, 120).unwrap().threshold(), 120);
    assert_eq!(SyncBatcher::<u32>::new(7, 5).unwrap().threshold(), 35);
    assert_eq!(SyncBatcher::<u32>::new(1, 1).unwrap().threshold(), 1);
    assert!(SyncBatcher::<u32>::new(0, 5).is_none());
    assert!(SyncBatcher::<u32>::new(5, 0).is_none());
    assert!(SyncBatcher::<u32>::new(u64::MAX, 2).is_none());
    assert_eq!(SyncBatcher::<u32>::new(1 << 40, 1 << 40).unwrap().threshold(), 1 << 40);
    assert_eq!(SyncBatcher::<u32>::new(u64::MAX, u64::MAX).unwrap().threshold(), u64::MAX);
}

#[test]
fn flush_due_only_on_multiples_of_threshold() {
    let mut b = SyncBatcher::new(2, 3).unwrap();
    for tick in 1..=30u32 {
        let due = b.tick(tick);
        assert_eq!(due, tick % 6 == 0, "tick {}", tick);
        if due {
            b.flush_failed();
        }
    }
    assert_eq!(b.counter(), 30);
}

#[test]
fn backpressure_drains_oldest_two_thresholds() {
    let mut b = SyncBatcher::new(10, 10).unwrap();
    assert_eq!(b.threshold(), 10);
    for tick in 1..=100u32 {
        let due = b.tick(tick);
        if due && tick < 100 {
            assert_eq!(b.flush_failed(), 0);
        }
    }
    assert_eq!(b.cache().len(), 100);
    assert_eq!(b.flush_failed(), 20);
    assert_eq!(b.cache().len(), 80);
    assert_eq!(b.cache()[0], 21);
    assert_eq!(b.cache()[79], 100);
}

#[test]
fn end_to_end_flush_cadence() {
    let mut b = SyncBatcher::new(60, 120).unwrap();
    let mut flushes = 0;
    for tick in 1..=120u32 {
        if b.tick(tick) {
            flushes += 1;
            b.flush_succeeded();
        }
    }
    assert_eq!(flushes, 1);
    assert_eq!(b.cache().len(), 0);
    assert_eq!(b.counter(), 0);
    assert!(!b.tick(121));
    assert_eq!(b.cache().len(), 1);
}

#[test]
fn plugin_failures_are_isolated() {
    let outcomes = vec![
        PluginOutcome::Produced { name: info(), output: "[\"alice\"]".to_string() },
        PluginOutcome::Unloadable,
        PluginOutcome::Failed { name: "broken".to_string() },
        PluginOutcome::Produced { name: "garbled".to_string(), output: "{not json".to_string() },
    ];
    let data = collect_plugin_data(&outcomes);
    assert_eq!(data.len(), 1);
    assert_eq!(data[0].name, "active_users");
    assert_eq!(data[0].json, "[\"alice\"]");
}

#[test]
fn plugin_reports_name_and_user_list() {
    assert_eq!(info(), "active_users");
    let users = vec!["alice".to_string(), "bob".to_string()];
    assert_eq!(encode_users(&users).unwrap(), "[\"alice\",\"bob\"]");
    assert_eq!(encode_users(&Vec::new()).unwrap(), "[]");
    let odd = vec!["a\"b".to_string(), "tab\there".to_string()];
    let text = encode_users(&odd).unwrap();
    assert_eq!(text, "[\"a\\\"b\",\"tab\\there\"]");
    assert_eq!(serde_json::from_str::<Vec<String>>(&text).unwrap(), odd);
}

#[test]
fn identity_fields() {
    assert_eq!(os_version("Linux", "5.10.0"), "Linux 5.10.0");
    assert_eq!(identity_or_placeholder(None), "unknown");
    assert_eq!(identity_or_placeholder(Some("host1".to_string())), "host1");
    assert_eq!(uptime_seconds(Some(3600)), 3600);
    assert_eq!(uptime_seconds(Some(u64::MAX)), i64::MAX);
    assert_eq!(uptime_seconds(None), 0);
}
