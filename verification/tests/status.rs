use glimanexus::status::{
    bytes_to_mb, check_version_supported, installed_version, live_status, mc_version, os_info,
    parse_instance_status, parse_server_properties, traffic_since, used_and_total, version_info,
};

#[test]
fn os_info_trims_and_drops_empty() {
    assert_eq!(os_info("Ubuntu 24.04.1 LTS\n"), Some("Ubuntu 24.04.1 LTS".to_string()));
    assert_eq!(os_info("  \n"), None);
    assert_eq!(os_info(""), None);
}

#[test]
fn used_and_total_pairs() {
    assert_eq!(used_and_total("1834 7941\n"), (1834, 7941));
    assert_eq!(used_and_total("12 "), (12, 0));
    assert_eq!(used_and_total("x 5"), (0, 5));
    assert_eq!(used_and_total(""), (0, 0));
}

#[test]
fn instance_status_active() {
    let s = parse_instance_status("active|3600|1234|Mon 2024-01-01 12:00:00 UTC\n");
    assert_eq!(s.state, "active");
    assert_eq!(s.uptime_seconds, 3600);
    assert_eq!(s.pid, Some(1234));
    assert_eq!(s.started_at, Some("Mon 2024-01-01 12:00:00 UTC".to_string()));
}

#[test]
fn instance_status_inactive() {
    let s = parse_instance_status("inactive|0|0|n/a");
    assert_eq!(s.state, "inactive");
    assert_eq!(s.uptime_seconds, 0);
    assert_eq!(s.pid, None);
    assert_eq!(s.started_at, None);
    let s = parse_instance_status("failed|abc|x|");
    assert_eq!(s.state, "failed");
    assert_eq!(s.uptime_seconds, 0);
    assert_eq!(s.pid, None);
    assert_eq!(s.started_at, None);
}

#[test]
fn instance_status_keeps_bars_in_timestamp() {
    let s = parse_instance_status("active|-5|7|a|b");
    assert_eq!(s.uptime_seconds, -5);
    assert_eq!(s.started_at, Some("a|b".to_string()));
}

#[test]
fn instance_status_empty_output() {
    let s = parse_instance_status("");
    assert_eq!(s.state, "");
    assert_eq!(s.uptime_seconds, 0);
    assert_eq!(s.pid, None);
    assert_eq!(s.started_at, None);
}

#[test]
fn server_properties_world_and_port() {
    let raw = "#Minecraft server properties\nlevel-name=world\nserver-port=25570\nmotd=A = B\n";
    assert_eq!(parse_server_properties(raw), (Some("world".to_string()), 25570));
}

#[test]
fn server_properties_defaults_and_last_wins() {
    assert_eq!(parse_server_properties(""), (None, 25565));
    assert_eq!(parse_server_properties("server-port=abc\n"), (None, 25565));
    assert_eq!(parse_server_properties(" level-name = a \r\nlevel-name=b"), (Some("b".to_string()), 25565));
    assert_eq!(parse_server_properties("server-port=70000"), (None, 25565));
}

#[test]
fn mc_version_extraction() {
    assert_eq!(mc_version("26.2-92-0a99345 (MC: 26.2)"), Some("26.2".to_string()));
    assert_eq!(mc_version("1.21.4-15-abc (MC: 1.21.4) extra"), Some("1.21.4".to_string()));
    assert_eq!(mc_version("no version"), None);
    assert_eq!(mc_version("(MC: 1.0"), None);
}

#[test]
fn installed_version_from_history() {
    assert_eq!(
        installed_version(r#"{"currentVersion":"1.21.4-15-abc (MC: 1.21.4)"}"#),
        Some("1.21.4".to_string())
    );
    assert_eq!(installed_version(r#"{"currentVersion":5}"#), None);
    assert_eq!(installed_version("not json"), None);
}

#[test]
fn version_info_up_to_date_only_when_equal() {
    let v = version_info(Some("1.21.4".to_string()), Some("1.21.4\n".to_string()));
    assert_eq!(v.latest, Some("1.21.4".to_string()));
    assert!(v.up_to_date);
    let v = version_info(Some("1.21.3".to_string()), Some("1.21.4".to_string()));
    assert!(!v.up_to_date);
    let v = version_info(None, Some("  ".to_string()));
    assert_eq!(v.latest, None);
    assert!(!v.up_to_date);
}

#[test]
fn version_supported_only_for_paper() {
    assert_eq!(check_version_supported("minecraft-paper"), Ok(()));
    assert_eq!(
        check_version_supported("valheim"),
        Err("Für dieses Spiel gibt es noch keine Versionsanzeige".to_string())
    );
}

#[test]
fn live_status_ping_failure_leaves_counts_unknown() {
    let s = live_status(Some("world".to_string()), Err("refused".to_string()));
    assert_eq!(s.world, Some("world".to_string()));
    assert_eq!(s.players_online, None);
    let s = live_status(None, Ok((Some(2), Some(10))));
    assert_eq!((s.players_online, s.players_max), (Some(2), Some(10)));
}

#[test]
fn local_stats_helpers() {
    assert_eq!(bytes_to_mb(3 * 1024 * 1024 + 5), 3);
    assert_eq!(traffic_since(0, 500), None);
    assert_eq!(traffic_since(100, 500), Some(400));
    assert_eq!(traffic_since(600, 500), Some(0));
}
