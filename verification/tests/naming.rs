use glimanexus::commands::instance_dir;
use glimanexus::naming::{backup_file_name_at, backup_stamp_at, new_backup_file_name, new_instance_id};
use glimanexus::paths::{check_instance_id, validate_backup_filename, validate_instance_path};

#[test]
fn fresh_instance_ids_pass_the_path_check() {
    for _ in 0..20 {
        let id = new_instance_id();
        assert_eq!(id.len(), 36);
        assert!(id.chars().all(|c| c == '-' || c.is_ascii_digit() || ('a'..='f').contains(&c)));
        assert_eq!(check_instance_id(&id), Ok(()));
        assert_eq!(validate_instance_path(&instance_dir(&id), &id), Ok(()));
    }
    assert_ne!(new_instance_id(), new_instance_id());
}

#[test]
fn backup_stamp_of_known_times() {
    assert_eq!(backup_stamp_at(0), Some("19700101-000000".to_string()));
    assert_eq!(backup_stamp_at(1431648000), Some("20150515-000000".to_string()));
    assert_eq!(backup_stamp_at(1704110400 + 3 * 3600 + 4 * 60 + 5), Some("20240101-150405".to_string()));
    assert_eq!(backup_stamp_at(253402300799), Some("99991231-235959".to_string()));
    assert_eq!(backup_stamp_at(253402300800), Some("+100000101-000000".to_string()));
    assert_eq!(backup_stamp_at(u64::MAX), None);
}

#[test]
fn backup_name_of_known_time() {
    let name = backup_file_name_at(1431648000).unwrap();
    assert_eq!(name, "backup-20150515-000000.tar.gz");
    assert_eq!(validate_backup_filename(&name), Ok(()));
    assert_eq!(backup_file_name_at(u64::MAX), None);
}

#[test]
fn backup_names_made_now_pass_the_name_check() {
    let name = new_backup_file_name().expect("clock after 1970");
    assert_eq!(name.len(), 29);
    assert!(name.starts_with("backup-") && name.ends_with(".tar.gz"));
    let stamp = &name[7..22];
    assert!(stamp.chars().enumerate().all(|(i, c)| if i == 8 { c == '-' } else { c.is_ascii_digit() }));
    assert_eq!(validate_backup_filename(&name), Ok(()));
}
