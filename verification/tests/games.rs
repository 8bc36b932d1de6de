use glimanexus::games::{find_template, render_step, template_for_game, shell_single_quote, signature_path_for_template, GameInstall, GameTemplate};

fn template(id: &str, name: &str, start_command: &str) -> GameTemplate {
    GameTemplate {
        id: id.to_string(),
        name: name.to_string(),
        subtitle: String::new(),
        icon: String::new(),
        requires: vec![],
        install: GameInstall { install_type: "script".to_string(), steps: vec!["echo {instance_id}".to_string()] },
        start_command: start_command.to_string(),
        default_cpu_limit_percent: 100,
        default_ram_limit_mb: 2048,
    }
}

#[test]
fn find_template_returns_first_with_matching_id() {
    let ts = vec![
        template("valheim", "Valheim", "./valheim_server.x86_64"),
        template("minecraft-paper", "Minecraft", "java -jar paper.jar"),
        template("minecraft-paper", "Second", "java -jar other.jar"),
    ];
    let found = find_template(ts, "minecraft-paper").expect("template");
    assert_eq!(found.name, "Minecraft");
}

#[test]
fn find_template_unknown_id() {
    let ts = vec![template("valheim", "Valheim", "./x")];
    assert!(find_template(ts, "terraria").is_none());
    assert!(find_template(vec![], "valheim").is_none());
}

#[test]
fn render_step_substitutes_placeholders() {
    assert_eq!(
        render_step("java -Xmx{ram_limit_mb}M -jar /srv/{instance_id}/paper.jar", "abc-1", 4096),
        "java -Xmx4096M -jar /srv/abc-1/paper.jar"
    );
    assert_eq!(render_step("{instance_id}{instance_id}", "x", 0), "xx");
    assert_eq!(render_step("{ram_limit_mb}", "x", 0), "0");
}

#[test]
fn render_step_without_placeholders_is_identity() {
    assert_eq!(render_step("apt-get install -y steamcmd", "abc", 512), "apt-get install -y steamcmd");
    assert_eq!(render_step("{instance}", "abc", 512), "{instance}");
}

#[test]
fn render_step_replaces_id_before_ram() {
    // An id that itself holds the RAM placeholder is substituted in turn.
    assert_eq!(render_step("{instance_id}", "{ram_limit_mb}", 7), "7");
}

#[test]
fn signature_path_of_dot_slash_command() {
    let t = template("v", "V", "./valheim_server.x86_64 -name x -port 2456");
    assert_eq!(signature_path_for_template(&t), Some("valheim_server.x86_64".to_string()));
}

#[test]
fn signature_path_of_jar_command() {
    let t = template("m", "M", "java -Xmx2048M -jar paper.jar --nogui");
    assert_eq!(signature_path_for_template(&t), Some("paper.jar".to_string()));
}

#[test]
fn signature_path_none_cases() {
    assert_eq!(signature_path_for_template(&template("a", "A", "bash start.sh")), None);
    assert_eq!(signature_path_for_template(&template("a", "A", "./")), None);
    assert_eq!(signature_path_for_template(&template("a", "A", "java -jar ")), None);
}

#[test]
fn shell_single_quote_escapes_quotes() {
    assert_eq!(shell_single_quote("abc"), "'abc'");
    assert_eq!(shell_single_quote("it's"), "'it'\\''s'");
    assert_eq!(shell_single_quote(""), "''");
}

#[test]
fn template_for_game_or_unknown_error() {
    let ts = vec![template("valheim", "Valheim", "./x"), template("valheim", "Other", "./y")];
    assert_eq!(template_for_game(ts.clone(), "valheim").expect("template").name, "Valheim");
    assert_eq!(template_for_game(ts, "zork").err(), Some("Unbekanntes Spiel: zork".to_string()));
}
