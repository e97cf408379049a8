use irondb::stats::ServerStats;

#[test]
fn stats_track_commands() {
    let mut stats = ServerStats::new(Some("./test.snapshot.json".into()));
    stats.client_connected();
    stats.command_processed();
    stats.command_processed();
    stats.record_cleanup_expirations(3);

    let fields = stats.info_fields(5);
    let map: std::collections::HashMap<_, _> = fields.into_iter().collect();
    assert_eq!(map.get("keys").unwrap(), "5");
    assert_eq!(map.get("expired_keys").unwrap(), "3");
    assert_eq!(map.get("total_commands_processed").unwrap(), "2");
}

#[test]
fn info_fields_are_in_order() {
    let mut stats = ServerStats::new(None);
    stats.client_connected();
    stats.client_connected();
    stats.client_disconnected();
    stats.record_lazy_expirations(0);
    stats.record_lazy_expirations(4);
    let fields = stats.info_fields_at(12, 3600);
    let expected: Vec<(String, String)> = vec![
        ("irondb_version".into(), "0.1.0".into()),
        ("uptime_seconds".into(), "3600".into()),
        ("connected_clients".into(), "1".into()),
        ("total_commands_processed".into(), "0".into()),
        ("keys".into(), "12".into()),
        ("expired_keys".into(), "4".into()),
        ("snapshot_path".into(), "(none)".into()),
    ];
    assert_eq!(fields, expected);
}

#[test]
fn counters_wrap_around() {
    let mut stats = ServerStats::new(None);
    stats.client_disconnected();
    let fields = stats.info_fields_at(0, 0);
    assert_eq!(fields[2].1, u64::MAX.to_string());
    stats.client_connected();
    let fields = stats.info_fields_at(0, 0);
    assert_eq!(fields[2].1, "0");
}
