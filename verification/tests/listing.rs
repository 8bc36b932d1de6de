use glimanexus::listing::{created_backup_entry, parse_backup_listing, parse_dir_listing, parse_stat, uploaded_backup_entry};

#[test]
fn dir_listing_dirs_first_then_names_ignoring_case() {
    let raw = "f|zeta.txt|10\nd|logs|4096\nf|Alpha.jar|20\nd|World|4096\nf|beta|5\n";
    let entries = parse_dir_listing(raw);
    let names: Vec<(&str, bool, u64)> = entries.iter().map(|e| (e.name.as_str(), e.is_dir, e.size_bytes)).collect();
    assert_eq!(
        names,
        vec![("logs", true, 4096), ("World", true, 4096), ("Alpha.jar", false, 20), ("beta", false, 5), ("zeta.txt", false, 10)]
    );
}

#[test]
fn dir_listing_skips_bad_lines_and_keeps_ties_in_order() {
    let raw = "f|a|1\nbroken\nf|b|x\nf|A|2\nf|name|with|bars|3\n";
    let entries = parse_dir_listing(raw);
    let names: Vec<(&str, u64)> = entries.iter().map(|e| (e.name.as_str(), e.size_bytes)).collect();
    assert_eq!(names, vec![("a", 1), ("A", 2)]);
}

#[test]
fn backup_listing_newest_first() {
    let raw = "old.tar.gz|100|1700000000.5\nnew.tar.gz|200|1800000000.25\nmid.tar.gz|150|1750000000\n";
    let entries = parse_backup_listing(raw);
    let names: Vec<(&str, u64, i64)> = entries.iter().map(|e| (e.name.as_str(), e.size_bytes, e.created_at)).collect();
    assert_eq!(
        names,
        vec![("new.tar.gz", 200, 1800000000), ("mid.tar.gz", 150, 1750000000), ("old.tar.gz", 100, 1700000000)]
    );
}

#[test]
fn backup_listing_equal_times_keep_order() {
    let raw = "a.tar.gz|1|5\nb.tar.gz|2|5.9\nbad|x|5\n";
    let entries = parse_backup_listing(raw);
    let names: Vec<&str> = entries.iter().map(|e| e.name.as_str()).collect();
    assert_eq!(names, vec!["a.tar.gz", "b.tar.gz"]);
}

#[test]
fn stat_parsing() {
    assert_eq!(parse_stat("2048|1700000000\n"), Some((2048, 1700000000)));
    assert_eq!(parse_stat("2048"), None);
    assert_eq!(parse_stat("x|1"), None);
}

#[test]
fn backup_entries_from_stat() {
    let e = created_backup_entry("b.tar.gz".to_string(), "10|20").unwrap();
    assert_eq!((e.name.as_str(), e.size_bytes, e.created_at), ("b.tar.gz", 10, 20));
    assert_eq!(
        created_backup_entry("b.tar.gz".to_string(), "").unwrap_err(),
        "Backup erstellt, aber Größe/Zeitstempel konnten nicht gelesen werden"
    );
    assert_eq!(
        uploaded_backup_entry("b.tar.gz".to_string(), "oops").unwrap_err(),
        "Hochgeladen, aber Größe/Zeitstempel konnten nicht gelesen werden"
    );
}
