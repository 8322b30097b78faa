use patch_engine::paths::{
    backup_name_for, classify_backup, find_file_name_start, is_patch_container_name, BackupClass,
};

#[test]
fn backup_name_appends_bak_after_extension() {
    assert_eq!(backup_name_for(&b"game.exe".to_vec()), b"game.exe.bak".to_vec());
    assert_eq!(backup_name_for(&b"archive.tar.gz".to_vec()), b"archive.tar.gz.bak".to_vec());
    assert_eq!(backup_name_for(&b"dir/data.win".to_vec()), b"dir/data.win.bak".to_vec());
}

#[test]
fn backup_name_without_extension_inserts_a_dot() {
    assert_eq!(backup_name_for(&b"game".to_vec()), b"game..bak".to_vec());
    assert_eq!(backup_name_for(&b".bashrc".to_vec()), b".bashrc..bak".to_vec());
}

#[test]
fn backup_name_ignores_dots_in_directories() {
    assert_eq!(backup_name_for(&b"dir.d/file".to_vec()), b"dir.d/file..bak".to_vec());
}

#[test]
fn file_name_starts_after_last_slash() {
    assert_eq!(find_file_name_start(&b"dir/file".to_vec()), 4);
    assert_eq!(find_file_name_start(&b"a/b/c.txt".to_vec()), 4);
    assert_eq!(find_file_name_start(&b"plain".to_vec()), 0);
}

#[test]
fn classify_recovers_original_name() {
    match classify_backup(&b"foo.bak".to_vec()) {
        BackupClass::RestoreTo { original } => assert_eq!(original, b"foo".to_vec()),
        _ => panic!("expected a restorable backup"),
    }
    match classify_backup(&b"dir/game.exe.bak".to_vec()) {
        BackupClass::RestoreTo { original } => assert_eq!(original, b"dir/game.exe".to_vec()),
        _ => panic!("expected a restorable backup"),
    }
}

#[test]
fn classify_bare_bak_is_ambiguous() {
    assert!(matches!(classify_backup(&b".bak".to_vec()), BackupClass::Ambiguous));
    assert!(matches!(classify_backup(&b"dir/.bak".to_vec()), BackupClass::Ambiguous));
}

#[test]
fn classify_other_names_are_not_backups() {
    assert!(matches!(classify_backup(&b"foo.txt".to_vec()), BackupClass::NotBackup));
    assert!(matches!(classify_backup(&b"bak".to_vec()), BackupClass::NotBackup));
    assert!(matches!(classify_backup(&b"foo.bakx".to_vec()), BackupClass::NotBackup));
}

#[test]
fn classify_backup_of_backup_restores_one_level() {
    match classify_backup(&b"x.bak.bak".to_vec()) {
        BackupClass::RestoreTo { original } => assert_eq!(original, b"x.bak".to_vec()),
        _ => panic!("expected a restorable backup"),
    }
}

#[test]
fn bps_names_are_patch_containers() {
    assert!(is_patch_container_name(&b"patch/data.bps".to_vec()));
    assert!(!is_patch_container_name(&b"readme.txt".to_vec()));
    assert!(!is_patch_container_name(&b"bps".to_vec()));
}
