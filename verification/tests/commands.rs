use glimanexus::commands::{
    backup_dir, backup_file_name, cat_command, cat_quiet_command, create_backup_command, follow_logs_command, hardware_commands,
    install_step_commands, instance_dir, instance_id_of_path, instance_status_command, list_backups_command,
    list_directory_command, make_owned_dir_command, os_release_command, removal_commands, restore_command,
    stat_command, tee_as_gameserver_command, unit_list_command, unit_name_for,
};
use glimanexus::games::{GameInstall, GameTemplate};

#[test]
fn directories_and_names() {
    assert_eq!(instance_dir("abc"), "/home/gameserver/instances/abc");
    assert_eq!(backup_dir("abc"), "/home/gameserver/backups/abc");
    assert_eq!(unit_name_for("abc"), "novanexus-abc");
    assert_eq!(backup_file_name("20240101-120000"), "backup-20240101-120000.tar.gz");
}

#[test]
fn install_steps_run_as_gameserver() {
    let t = GameTemplate {
        id: "g".to_string(),
        name: "G".to_string(),
        subtitle: String::new(),
        icon: String::new(),
        requires: vec![],
        install: GameInstall {
            install_type: "script".to_string(),
            steps: vec!["cd /srv/{instance_id} && echo '{ram_limit_mb}'".to_string(), "true".to_string()],
        },
        start_command: "./g".to_string(),
        default_cpu_limit_percent: 100,
        default_ram_limit_mb: 1024,
    };
    let cmds = install_step_commands(&t, "id1", 1024);
    assert_eq!(
        cmds,
        vec![
            "sudo -u gameserver bash -c 'cd /srv/id1 && echo '\\''1024'\\'''".to_string(),
            "sudo -u gameserver bash -c 'true'".to_string(),
        ]
    );
}

#[test]
fn command_texts() {
    assert_eq!(os_release_command(), "grep PRETTY_NAME /etc/os-release | cut -d'\"' -f2");
    let (cpu, mem, disk) = hardware_commands();
    assert_eq!(cpu, "top -bn1 | grep 'Cpu(s)' | awk '{print $2}'");
    assert_eq!(mem, "free -m | awk '/Mem:/ {print $3\" \"$2}'");
    assert_eq!(disk, "df -BG / | awk 'NR==2 {gsub(\"G\",\"\"); print $3\" \"$2}'");
    assert_eq!(make_owned_dir_command("/d"), "sudo mkdir -p /d && sudo chown gameserver:gameserver /d");
    assert_eq!(tee_as_gameserver_command("/a b"), "sudo -u gameserver tee '/a b' > /dev/null");
    assert_eq!(
        unit_list_command(),
        "find /etc/systemd/system -maxdepth 1 -name 'novanexus-*.service' -printf '%f\\n' 2>/dev/null"
    );
    assert_eq!(cat_quiet_command("/x"), "sudo cat '/x' 2>/dev/null");
    assert_eq!(cat_command("/b/x.tar.gz"), "sudo cat '/b/x.tar.gz'");
    assert_eq!(stat_command("/x"), "sudo stat -c '%s|%Y' '/x'");
    assert_eq!(
        list_directory_command("/d"),
        "sudo find /d -mindepth 1 -maxdepth 1 -printf '%y|%f|%s\\n' 2>/dev/null"
    );
    assert_eq!(
        list_backups_command("/b"),
        "sudo find /b -maxdepth 1 -name '*.tar.gz' -printf '%f|%s|%T@\\n' 2>/dev/null"
    );
    assert_eq!(follow_logs_command("u"), "journalctl -fu u -n 200 --no-pager");
}

#[test]
fn status_command_text() {
    assert_eq!(
        instance_status_command("u"),
        "STATE=$(systemctl is-active u); TS=$(systemctl show -p ActiveEnterTimestamp --value u); PID=$(systemctl show -p MainPID --value u); if [ -n \"$TS\" ] && [ \"$TS\" != \"n/a\" ]; then NOW=$(date +%s); THEN=$(date -d \"$TS\" +%s 2>/dev/null || echo $NOW); UPTIME=$((NOW-THEN)); else UPTIME=0; fi; echo \"$STATE|$UPTIME|$PID|$TS\""
    );
}

#[test]
fn removal_and_backup_commands() {
    assert_eq!(
        removal_commands("u", "/p"),
        vec![
            "sudo systemctl disable u".to_string(),
            "sudo rm -f /etc/systemd/system/u.service".to_string(),
            "sudo systemctl daemon-reload".to_string(),
            "sudo rm -rf /p".to_string(),
        ]
    );
    assert_eq!(
        create_backup_command("/b", "/b/x.tar.gz", "/p"),
        "sudo mkdir -p /b && sudo chown gameserver:gameserver /b && sudo -u gameserver tar -czf /b/x.tar.gz -C /p ."
    );
    assert_eq!(
        restore_command("/p", "/b/x.tar.gz"),
        "sudo -u gameserver bash -c \"find '/p' -mindepth 1 -delete && tar -xzf '/b/x.tar.gz' -C '/p'\""
    );
}

#[test]
fn instance_id_is_last_path_component() {
    assert_eq!(instance_id_of_path("/home/gameserver/instances/abc"), "abc");
    assert_eq!(instance_id_of_path("abc"), "abc");
    assert_eq!(instance_id_of_path("/x/"), "");
}
