use glimanexus::discovery::{
    discovered_record, discovery_candidates, installed_record, manifest_settings, manifest_text, signature_checks, signature_found,
    template_settings,
};
use glimanexus::games::{GameInstall, GameTemplate};

fn template(id: &str, name: &str, start_command: &str) -> GameTemplate {
    GameTemplate {
        id: id.to_string(),
        name: name.to_string(),
        subtitle: String::new(),
        icon: String::new(),
        requires: vec![],
        install: GameInstall { install_type: "script".to_string(), steps: vec![] },
        start_command: start_command.to_string(),
        default_cpu_limit_percent: 80,
        default_ram_limit_mb: 4096,
    }
}

#[test]
fn candidates_skip_known_and_foreign_units() {
    let list = "novanexus-aaa.service\nnovanexus-bbb.service\nother.service\nnovanexus-.service\n  novanexus-ccc.service.service  \n";
    let known = vec!["bbb".to_string()];
    let found = discovery_candidates(list, &known);
    assert_eq!(
        found,
        vec![
            ("novanexus-aaa".to_string(), "aaa".to_string()),
            ("novanexus-ccc".to_string(), "ccc".to_string()),
        ]
    );
}

#[test]
fn candidates_of_empty_listing() {
    assert!(discovery_candidates("", &vec![]).is_empty());
}

#[test]
fn manifest_with_all_fields() {
    let m = r#"{"instance_id":"aaa","game_id":"valheim","display_name":"My Valheim","cpu_limit_percent":50,"ram_limit_mb":3072}"#;
    let s = manifest_settings(m, "aaa").expect("settings");
    assert_eq!(s.game_id, "valheim");
    assert_eq!(s.display_name, "My Valheim");
    assert_eq!(s.cpu_limit_percent, 50);
    assert_eq!(s.ram_limit_mb, 3072);
}

#[test]
fn manifest_defaults_for_missing_fields() {
    let s = manifest_settings("{}", "aaa").expect("settings");
    assert_eq!(s.game_id, "unknown");
    assert_eq!(s.display_name, "aaa");
    assert_eq!(s.cpu_limit_percent, 100);
    assert_eq!(s.ram_limit_mb, 2048);
}

#[test]
fn manifest_not_json() {
    assert!(manifest_settings("", "aaa").is_none());
    assert!(manifest_settings("cat: no such file", "aaa").is_none());
}

#[test]
fn manifest_limits_keep_low_32_bits() {
    let s = manifest_settings(r#"{"ram_limit_mb":4294967396}"#, "x").unwrap();
    assert_eq!(s.ram_limit_mb, 100);
}

#[test]
fn template_guess_settings() {
    let t = template("valheim", "Valheim", "./valheim_server.x86_64");
    let s = template_settings(Some(&t), "aaa");
    assert_eq!((s.game_id.as_str(), s.display_name.as_str(), s.cpu_limit_percent, s.ram_limit_mb), ("valheim", "Valheim", 80, 4096));
    let s = template_settings(None, "aaa");
    assert_eq!((s.game_id.as_str(), s.display_name.as_str(), s.cpu_limit_percent, s.ram_limit_mb), ("unknown", "aaa", 100, 2048));
}

#[test]
fn signature_check_commands() {
    let ts = vec![
        template("valheim", "Valheim", "./valheim_server.x86_64 -port 2456"),
        template("script", "Script", "bash run.sh"),
        template("paper", "Paper", "java -jar paper.jar nogui"),
    ];
    let checks = signature_checks(&ts, "/home/gameserver/instances/aaa");
    assert_eq!(
        checks,
        vec![
            (0, "test -f '/home/gameserver/instances/aaa'/'valheim_server.x86_64' && echo yes".to_string()),
            (2, "test -f '/home/gameserver/instances/aaa'/'paper.jar' && echo yes".to_string()),
        ]
    );
    assert!(signature_found("yes\n"));
    assert!(!signature_found(""));
}

#[test]
fn records_for_instances() {
    let t = template("valheim", "Valheim", "./x");
    let r = installed_record("srv".to_string(), "valheim".to_string(), "My".to_string(), "id1", &t);
    assert_eq!(r.install_path, "/home/gameserver/instances/id1");
    assert_eq!(r.systemd_unit, "novanexus-id1");
    assert_eq!((r.cpu_limit_percent, r.ram_limit_mb), (80, 4096));
    let s = template_settings(None, "id2");
    let r = discovered_record("srv", "novanexus-id2", "id2", s);
    assert_eq!(r.id, "id2");
    assert_eq!(r.install_path, "/home/gameserver/instances/id2");
    assert_eq!(r.game_id, "unknown");
}

#[test]
fn manifest_written_is_read_back() {
    let t = template("valheim", "Valheim", "./valheim_server.x86_64");
    let mut r = installed_record("srv".to_string(), "valheim".to_string(), "My \"quoted\" world".to_string(), "id1", &t);
    r.cpu_limit_percent = 75;
    let text = manifest_text(&r);
    let back = manifest_settings(&text, "other").expect("manifest parses");
    assert_eq!(back.game_id, "valheim");
    assert_eq!(back.display_name, "My \"quoted\" world");
    assert_eq!(back.cpu_limit_percent, 75);
    assert_eq!(back.ram_limit_mb, 4096);
    let v: serde_json::Value = serde_json::from_str(&text).unwrap();
    assert_eq!(v["instance_id"], "id1");
}
