use glimanexus::games::{GameInstall, GameTemplate};
use glimanexus::rediscovery::Discovery;

fn template(id: &str, name: &str, start_command: &str) -> GameTemplate {
    GameTemplate {
        id: id.to_string(),
        name: name.to_string(),
        subtitle: String::new(),
        icon: String::new(),
        requires: vec![],
        install: GameInstall { install_type: "script".to_string(), steps: vec![] },
        start_command: start_command.to_string(),
        default_cpu_limit_percent: 80,
        default_ram_limit_mb: 4096,
    }
}

#[test]
fn rediscovery_run_uses_manifest_then_files() {
    let templates = vec![
        template("valheim", "Valheim", "./valheim_server.x86_64 -nographics"),
        template("paper", "Minecraft Paper", "java -Xmx2G -jar paper.jar nogui"),
    ];
    let units = "novanexus-aaa.service\nnovanexus-bbb.service\nnovanexus-ccc.service\n";
    let mut run = Discovery::start("srv-1", units, &vec![], templates);

    let cmd = run.next_command().unwrap();
    assert_eq!(cmd, "sudo cat /home/gameserver/instances/aaa/.glimanexus-instance.json 2>/dev/null");
    run.on_output("{\"game_id\":\"paper\",\"display_name\":\"Lobby\",\"cpu_limit_percent\":50,\"ram_limit_mb\":1024}");

    assert_eq!(
        run.next_command().unwrap(),
        "sudo cat /home/gameserver/instances/bbb/.glimanexus-instance.json 2>/dev/null"
    );
    run.on_output("");
    assert_eq!(
        run.next_command().unwrap(),
        "test -f '/home/gameserver/instances/bbb'/'valheim_server.x86_64' && echo yes"
    );
    run.on_output("");
    assert_eq!(
        run.next_command().unwrap(),
        "test -f '/home/gameserver/instances/bbb'/'paper.jar' && echo yes"
    );
    run.on_output("yes\n");

    run.next_command().unwrap();
    run.on_output("not json");
    run.next_command().unwrap();
    run.on_output("");
    run.next_command().unwrap();
    run.on_output("");
    assert_eq!(run.next_command(), None);

    let records = run.into_records();
    assert_eq!(records.len(), 3);
    for (r, id) in records.iter().zip(["aaa", "bbb", "ccc"]) {
        assert_eq!(r.id, id);
        assert_eq!(r.server_id, "srv-1");
        assert_eq!(r.systemd_unit, format!("novanexus-{id}"));
        assert_eq!(r.install_path, format!("/home/gameserver/instances/{id}"));
    }
    assert_eq!((records[0].game_id.as_str(), records[0].display_name.as_str()), ("paper", "Lobby"));
    assert_eq!((records[0].cpu_limit_percent, records[0].ram_limit_mb), (50, 1024));
    assert_eq!((records[1].game_id.as_str(), records[1].display_name.as_str()), ("paper", "Minecraft Paper"));
    assert_eq!((records[1].cpu_limit_percent, records[1].ram_limit_mb), (80, 4096));
    assert_eq!((records[2].game_id.as_str(), records[2].display_name.as_str()), ("unknown", "ccc"));
    assert_eq!((records[2].cpu_limit_percent, records[2].ram_limit_mb), (100, 2048));
}

#[test]
fn rediscovery_without_signatures_marks_unknown() {
    let templates = vec![template("custom", "Custom", "bash start.sh")];
    let mut run = Discovery::start("s", "novanexus-x.service\n", &vec!["y".to_string()], templates);
    run.next_command().unwrap();
    run.on_output("");
    assert_eq!(run.next_command(), None);
    let records = run.into_records();
    assert_eq!(records.len(), 1);
    assert_eq!(records[0].game_id, "unknown");
}

#[test]
fn rediscovery_of_nothing() {
    let run = Discovery::start("s", "", &vec![], vec![]);
    assert_eq!(run.next_command(), None);
    assert!(run.into_records().is_empty());
}
