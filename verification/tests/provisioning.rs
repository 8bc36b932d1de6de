use glimanexus::provisioning::{bootstrap_commands, control_command, install_unit_commands, render_systemd_unit, SudoAction, SudoSetup};

#[test]
fn systemd_unit_text() {
    let unit = render_systemd_unit("abc", "/home/gameserver/instances/abc", "./server -port 1");
    assert_eq!(
        unit,
        "[Unit]\nDescription=NovaNexus Gameserver Instance abc\nAfter=network.target\n\n[Service]\nType=simple\nUser=gameserver\nWorkingDirectory=/home/gameserver/instances/abc\nExecStart=./server -port 1\nRestart=on-failure\nRestartSec=5\n\n[Install]\nWantedBy=multi-user.target\n"
    );
}

#[test]
fn sudo_setup_already_configured_is_noop() {
    let (mut setup, first) = SudoSetup::start("admin", "pw");
    match first {
        SudoAction::Exec { command } => assert_eq!(command, "sudo -n true 2>&1; echo EXIT:$?"),
        other => panic!("unexpected {other:?}"),
    }
    assert!(matches!(setup.on_output("EXIT:0\n"), SudoAction::Done));
}

#[test]
fn sudo_setup_grants_and_verifies() {
    let (mut setup, _) = SudoSetup::start("admin", "s3cret");
    match setup.on_output("sudo: a password is required\nEXIT:1\n") {
        SudoAction::ExecWithStdin { command, stdin } => {
            assert_eq!(
                command,
                "sudo -S -p '' bash -c \"echo 'admin ALL=(ALL) NOPASSWD:ALL' > /etc/sudoers.d/novanexus && chmod 440 /etc/sudoers.d/novanexus\""
            );
            assert_eq!(stdin, "s3cret\n");
        }
        other => panic!("unexpected {other:?}"),
    }
    match setup.on_output("") {
        SudoAction::Exec { command } => assert_eq!(command, "sudo -n true 2>&1; echo EXIT:$?"),
        other => panic!("unexpected {other:?}"),
    }
    assert!(matches!(setup.on_output("EXIT:0"), SudoAction::Done));
}

#[test]
fn sudo_setup_fails_with_script_output() {
    let (mut setup, _) = SudoSetup::start("admin", "wrong");
    let _ = setup.on_output("EXIT:1");
    let _ = setup.on_output("Sorry, try again.");
    match setup.on_output("EXIT:1") {
        SudoAction::Failed { message } => assert_eq!(
            message,
            "Konnte passwortloses Sudo nicht einrichten (Passwort falsch oder Nutzer nicht sudo-berechtigt): Sorry, try again."
        ),
        other => panic!("unexpected {other:?}"),
    }
}

#[test]
fn bootstrap_command_list() {
    let cmds = bootstrap_commands();
    assert_eq!(cmds.len(), 4);
    assert_eq!(cmds[0], "id -u gameserver &>/dev/null || sudo useradd -m -s /bin/bash gameserver");
    assert_eq!(cmds[1], "sudo apt-get update -y");
    assert_eq!(
        cmds[2],
        "sudo apt-get install -y curl wget tar unzip jq openjdk-21-jre-headless software-properties-common lib32gcc-s1 lib32stdc++6"
    );
    assert!(cmds[3].starts_with("command -v steamcmd &>/dev/null || (sudo add-apt-repository -y multiverse"));
    assert!(cmds[3].ends_with("sudo apt-get install -y steamcmd)"));
}

#[test]
fn install_unit_commands_escape_quotes() {
    let cmds = install_unit_commands("novanexus-x", "ExecStart=echo 'hi'\n");
    assert_eq!(cmds.len(), 3);
    assert_eq!(
        cmds[0],
        "echo 'ExecStart=echo '\\''hi'\\''\n' | sudo tee /etc/systemd/system/novanexus-x.service > /dev/null"
    );
    assert_eq!(cmds[1], "sudo systemctl daemon-reload");
    assert_eq!(cmds[2], "sudo systemctl enable novanexus-x");
}

#[test]
fn control_command_text() {
    assert_eq!(control_command("novanexus-x", "restart"), "sudo systemctl restart novanexus-x");
}

#[test]
fn systemd_unit_lines_law() {
    let unit = render_systemd_unit("id-1", "/srv/x y", "java -jar a.jar");
    let lines: Vec<&str> = unit.lines().collect();
    assert_eq!(lines.iter().filter(|l| l.starts_with("User=")).collect::<Vec<_>>(), vec![&"User=gameserver"]);
    assert_eq!(lines.iter().filter(|l| **l == "WorkingDirectory=/srv/x y").count(), 1);
    assert_eq!(lines.iter().filter(|l| **l == "ExecStart=java -jar a.jar").count(), 1);
    assert_eq!(lines.len(), 14);
    assert!(unit.ends_with('\n'));
}
