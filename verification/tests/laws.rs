use glimanexus::commands::{backup_file_name, instance_dir, unit_name_for};
use glimanexus::discovery::discovery_candidates;
use glimanexus::games::shell_single_quote;
use glimanexus::paths::{resolve_browsable_path, validate_backup_filename, validate_instance_path};

#[test]
fn quote_escape_roundtrip() {
    for text in ["", "plain", "it's", "''", "a'\\''b", "'\\'", "x\ny'z"] {
        let quoted = shell_single_quote(text);
        assert!(quoted.starts_with('\'') && quoted.ends_with('\''));
        let inner = &quoted[1..quoted.len() - 1];
        assert_eq!(inner.replace("'\\''", "'"), text);
    }
}

#[test]
fn discovery_finds_installed_unit() {
    for id in ["3f2c1e9a-7b4d-4c1e-9f00-123456789abc", "a", "x.servic", "abc service"] {
        let listing = format!("{}.service\n", unit_name_for(id));
        assert_eq!(discovery_candidates(&listing, &vec![]), vec![(unit_name_for(id), id.to_string())]);
    }
}

#[test]
fn discovery_skips_known_instances() {
    let id = "3f2c1e9a";
    let listing = format!("{}.service\n", unit_name_for(id));
    assert!(discovery_candidates(&listing, &vec![id.to_string()]).is_empty());
}

#[test]
fn installed_dir_passes_path_check() {
    for id in ["3f2c1e9a-7b4d-4c1e-9f00-123456789abc", "a_b", "x y"] {
        assert_eq!(validate_instance_path(&instance_dir(id), id), Ok(()));
    }
}

#[test]
fn path_check_accepts_one_id_per_path() {
    let path = instance_dir("abc");
    assert_eq!(validate_instance_path(&path, "abc"), Ok(()));
    assert!(validate_instance_path(&path, "ab").is_err());
    assert!(validate_instance_path(&path, "bc").is_err());
}

#[test]
fn browsable_install_dir_is_checked_dir() {
    for id in ["abc", "a-b-c"] {
        let p = resolve_browsable_path(id, "install").unwrap();
        assert_eq!(validate_instance_path(&p, id), Ok(()));
        assert_ne!(p, "/home/gameserver/instances/");
    }
}

#[test]
fn backup_names_distinct() {
    let a = backup_file_name("20240101-120000");
    let b = backup_file_name("20240101-120001");
    assert_eq!(a, "backup-20240101-120000.tar.gz");
    assert_ne!(a, b);
}

#[test]
fn backup_name_is_valid_backup_file() {
    for stamp in ["20240101-120000", "19991231-235959", ""] {
        assert_eq!(validate_backup_filename(&backup_file_name(stamp)), Ok(()));
    }
}
