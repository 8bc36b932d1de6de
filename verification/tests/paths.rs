use glimanexus::paths::{check_instance_id, resolve_browsable_path, validate_backup_filename, validate_instance_path};

#[test]
fn instance_path_accepts_exact_directory() {
    assert_eq!(validate_instance_path("/home/gameserver/instances/abc-123", "abc-123"), Ok(()));
}

#[test]
fn instance_path_rejects_bad_ids() {
    assert_eq!(validate_instance_path("/home/gameserver/instances/", ""), Err("Ungültige instance_id: \"\"".to_string()));
    assert_eq!(
        validate_instance_path("/home/gameserver/instances/a/b", "a/b"),
        Err("Ungültige instance_id: \"a/b\"".to_string())
    );
    assert_eq!(validate_instance_path("/home/gameserver/instances/..", ".."), Err("Ungültige instance_id: \"..\"".to_string()));
}

#[test]
fn instance_path_rejects_dotted_ids() {
    assert_eq!(validate_instance_path("/home/gameserver/instances/.", "."), Err("Ungültige instance_id: \".\"".to_string()));
    assert_eq!(validate_instance_path("/home/gameserver/instances/a.b", "a.b"), Err("Ungültige instance_id: \"a.b\"".to_string()));
}

#[test]
fn browsing_accepts_single_dots_but_not_double() {
    assert_eq!(resolve_browsable_path("a.b", "install"), Ok("/home/gameserver/instances/a.b".to_string()));
    assert_eq!(check_instance_id("a.b"), Ok(()));
    assert_eq!(check_instance_id("a..b"), Err("Ungültige instance_id: \"a..b\"".to_string()));
}

#[test]
fn instance_path_rejects_other_paths() {
    assert_eq!(
        validate_instance_path("/home/gameserver/instances", "abc"),
        Err("Install-Pfad passt nicht zur Instanz-ID, breche Löschung ab (erwartet \"/home/gameserver/instances/abc\", erhalten \"/home/gameserver/instances\")".to_string())
    );
}

#[test]
fn instance_id_debug_quoting_escapes() {
    assert_eq!(check_instance_id("a\"b/"), Err("Ungültige instance_id: \"a\\\"b/\"".to_string()));
}

#[test]
fn browsable_paths() {
    assert_eq!(resolve_browsable_path("abc", "install"), Ok("/home/gameserver/instances/abc".to_string()));
    assert_eq!(resolve_browsable_path("abc", "backups"), Ok("/home/gameserver/backups/abc".to_string()));
    assert_eq!(resolve_browsable_path("abc", "etc"), Err("Unbekanntes Verzeichnis: \"etc\"".to_string()));
    assert_eq!(resolve_browsable_path("..", "install"), Err("Ungültige instance_id: \"..\"".to_string()));
}

#[test]
fn browsable_install_dir_passes_path_check() {
    let p = resolve_browsable_path("abc", "install").unwrap();
    assert_eq!(validate_instance_path(&p, "abc"), Ok(()));
}

#[test]
fn backup_filenames() {
    assert_eq!(validate_backup_filename("backup-20240101-120000.tar.gz"), Ok(()));
    assert_eq!(validate_backup_filename("x.zip"), Err("Ungültiger Backup-Dateiname: \"x.zip\"".to_string()));
    assert_eq!(validate_backup_filename("../x.tar.gz"), Err("Ungültiger Backup-Dateiname: \"../x.tar.gz\"".to_string()));
    assert_eq!(validate_backup_filename(""), Err("Ungültiger Backup-Dateiname: \"\"".to_string()));
    assert_eq!(validate_backup_filename(".tar.gz"), Ok(()));
}
