use media_sub::backup::{
    archive_checked_by_decoding, archive_from_files, backup_storage_size, backups_to_prune, check_restore_confirmation,
    decode_archive_files, is_archived_file_name, is_backup_file_name, restore_result,
    safe_relative_path, sanitize_label, sha256_hex, snapshot_backup_name, sort_stored_backups,
    storage_budget_error, storage_over_budget, stored_backup_name, validate_archive, BackupArchive,
    BackupFile, BackupPolicy, StoredBackup,
};
use media_sub::error::AppError;

fn data_files() -> Vec<(String, Vec<u8>)> {
    vec![
        ("notes.txt".to_string(), b"before".to_vec()),
        ("settings.json".to_string(), b"{\"schema_version\":1}".to_vec()),
    ]
}

#[test]
fn archive_round_trip_previews_and_decodes() {
    let archive = archive_from_files(&data_files(), 1024 * 1024, "test", 1, 42).unwrap();
    assert_eq!(archive.format, "my-media-sub-backup");
    assert_eq!(archive.format_version, 1);
    assert_eq!(archive.created_at, 42);
    assert_eq!(archive.files.len(), 2);
    assert_eq!(archive.files[0].content_base64, "YmVmb3Jl");
    let verdicts = vec![Ok(None), Ok(Some(1))];
    let preview = validate_archive(&archive, 1024 * 1024, 1, &verdicts).unwrap();
    assert!(preview.valid);
    assert_eq!(preview.file_count, 2);
    assert_eq!(preview.total_bytes, 6 + 20);
    assert_eq!(preview.files[1].schema_version, Some(1));
    assert!(preview.warnings.is_empty());
    let restored = decode_archive_files(&archive).unwrap();
    assert_eq!(restored, data_files());
}

#[test]
fn archive_without_settings_warns() {
    let files = vec![("notes.txt".to_string(), b"x".to_vec())];
    let archive = archive_from_files(&files, 1024, "test", 1, 1).unwrap();
    let preview = validate_archive(&archive, 1024, 1, &vec![Ok(None)]).unwrap();
    assert_eq!(preview.warnings, vec!["备份不包含 settings.json，将保留当前设置"]);
}

#[test]
fn rejects_path_traversal_and_tampered_content() {
    let mut archive = BackupArchive {
        format: "my-media-sub-backup".into(),
        format_version: 1,
        app_version: "test".into(),
        schema_version: 1,
        created_at: 1,
        files: vec![BackupFile {
            path: "../escape.json".into(),
            size: 2,
            sha256: sha256_hex(b"{}"),
            content_base64: "e30=".into(),
        }],
    };
    let verdicts = vec![Ok(None)];
    let err = validate_archive(&archive, 1024, 1, &verdicts).unwrap_err();
    assert!(err.describe().contains("路径穿越"));
    archive.files[0].path = "safe.json".into();
    archive.files[0].sha256 = "wrong".into();
    let err = validate_archive(&archive, 1024, 1, &verdicts).unwrap_err();
    assert!(err.describe().contains("校验失败"));
}

#[test]
fn archive_checks_format_schema_duplicates_and_size() {
    let archive = archive_from_files(&data_files(), 1024, "test", 2, 1).unwrap();
    let verdicts = vec![Ok(None), Ok(None)];
    assert_eq!(
        validate_archive(&archive, 1024, 1, &verdicts).unwrap_err(),
        AppError::Validation("备份 schema 2 高于当前支持版本 1".to_string())
    );
    let mut other = archive.clone();
    other.format = "other".into();
    assert_eq!(
        validate_archive(&other, 1024, 2, &verdicts).unwrap_err(),
        AppError::Validation("不支持的备份格式或版本".to_string())
    );
    let mut twice = archive.clone();
    twice.files[1] = twice.files[0].clone();
    twice.files[1].path = "./notes.txt".into();
    assert!(validate_archive(&twice, 1024, 2, &verdicts).is_err());
    twice.files[1].path = "a/../notes.txt".into();
    assert!(validate_archive(&twice, 1024, 2, &verdicts).unwrap_err().describe().contains("路径穿越"));
    twice.files[1].path = "notes.txt/".into();
    assert_eq!(
        validate_archive(&twice, 1024, 2, &verdicts).unwrap_err(),
        AppError::Validation("备份包含重复路径: notes.txt".to_string())
    );
    assert_eq!(
        validate_archive(&archive, 10, 2, &verdicts).unwrap_err(),
        AppError::RateLimited("备份内容超过恢复安全上限".to_string())
    );
    let failed = vec![Ok(None), Err(AppError::Validation("settings.json schema 校验失败: bad".to_string()))];
    assert_eq!(
        validate_archive(&archive, 1024, 2, &failed).unwrap_err(),
        AppError::Validation("settings.json schema 校验失败: bad".to_string())
    );
    let mut broken = archive.clone();
    broken.files[0].content_base64 = "!!!".into();
    assert_eq!(
        validate_archive(&broken, 1024, 2, &verdicts).unwrap_err(),
        AppError::Validation("备份文件 Base64 无效: notes.txt".to_string())
    );
}

#[test]
fn building_refuses_unsafe_paths_and_large_content() {
    let files = vec![("backups/old.json".to_string(), b"{}".to_vec())];
    assert_eq!(
        archive_from_files(&files, 1024, "t", 1, 1).unwrap_err(),
        AppError::Validation("备份路径使用保留位置: backups/old.json".to_string())
    );
    let big = vec![("big.bin".to_string(), vec![0u8; 10])];
    assert_eq!(
        archive_from_files(&big, 5, "t", 1, 1).unwrap_err(),
        AppError::RateLimited("备份内容超过 0 MiB 上限".to_string())
    );
}

#[test]
fn relative_paths_are_normalized_or_refused() {
    assert_eq!(safe_relative_path("a//b/./c").unwrap(), "a/b/c");
    assert_eq!(safe_relative_path("a/b/").unwrap(), "a/b");
    assert_eq!(
        safe_relative_path("/etc/passwd").unwrap_err(),
        AppError::Validation("备份路径必须是非空相对路径".to_string())
    );
    assert_eq!(
        safe_relative_path("").unwrap_err(),
        AppError::Validation("备份路径必须是非空相对路径".to_string())
    );
    assert_eq!(
        safe_relative_path("./a").unwrap_err(),
        AppError::Validation("备份路径包含路径穿越".to_string())
    );
    assert_eq!(
        safe_relative_path("a\\b").unwrap_err(),
        AppError::Validation("备份路径包含非法字符".to_string())
    );
    assert_eq!(
        safe_relative_path("restart-required.json").unwrap_err(),
        AppError::Validation("备份路径使用保留位置: restart-required.json".to_string())
    );
}

#[test]
fn digest_is_lowercase_hex_sha256() {
    assert_eq!(
        sha256_hex(b"abc"),
        "ba7816bf8f01cfea414140de5dae2223b00361a396177a9cb410ff61f20015ad"
    );
}

#[test]
fn retention_keeps_latest_backups() {
    let backups = vec![
        StoredBackup { name: "backup-1-a.json".into(), size: 10, modified_at: 100 },
        StoredBackup { name: "backup-3-c.json".into(), size: 30, modified_at: 300 },
        StoredBackup { name: "backup-2-b.json".into(), size: 20, modified_at: 300 },
    ];
    let sorted = sort_stored_backups(&backups);
    let names: Vec<&str> = sorted.iter().map(|b| b.name.as_str()).collect();
    assert_eq!(names, vec!["backup-3-c.json", "backup-2-b.json", "backup-1-a.json"]);
    assert_eq!(backups_to_prune(&sorted, 2), vec!["backup-1-a.json"]);
    assert!(backups_to_prune(&sorted, 5).is_empty());
    assert_eq!(backup_storage_size(&sorted), 60);
    assert!(storage_over_budget(60, 50, 100));
    assert!(!storage_over_budget(60, 40, 100));
    assert_eq!(
        storage_budget_error(4 * 1024 * 1024),
        AppError::RateLimited("备份存储预算不足：上限 4 MiB".to_string())
    );
}

#[test]
fn names_labels_and_confirmation() {
    assert_eq!(sanitize_label("定时 scheduled!"), "scheduled");
    assert_eq!(sanitize_label("???"), "manual");
    assert_eq!(sanitize_label(&"x".repeat(40)).len(), 32);
    assert_eq!(
        stored_backup_name(42, "manual-1", "0123456789abcdef"),
        "backup-42-manual-1-01234567.json"
    );
    assert_eq!(snapshot_backup_name(7, "abcdef0123"), "backup-7-pre-restore-abcdef01.json");
    assert!(is_backup_file_name("backup-1-x.json"));
    assert!(!is_backup_file_name("backup-1-x.json.tmp"));
    assert!(is_archived_file_name("settings.json"));
    assert!(!is_archived_file_name("settings.json.tmp"));
    assert!(!is_archived_file_name("restart-required.json"));
    assert!(check_restore_confirmation("RESTORE DATA").is_ok());
    assert_eq!(
        check_restore_confirmation("restore").unwrap_err(),
        AppError::Validation("恢复确认文本必须为 RESTORE DATA".to_string())
    );
    let result = restore_result(3, "snap.json".to_string());
    assert!(result.restart_required);
    assert_eq!(result.restored_files, 3);
}

#[test]
fn policy_reads_settings_with_defaults_and_bounds() {
    let policy = BackupPolicy::from_env(None, None, None, None);
    assert_eq!(policy.interval.as_secs(), 24 * 3600);
    assert_eq!(policy.retention, 7);
    assert_eq!(policy.max_archive_bytes, 256 * 1024 * 1024);
    assert_eq!(policy.max_storage_bytes, 512 * 1024 * 1024);
    let policy = BackupPolicy::from_env(
        Some("0".to_string()),
        Some("500".to_string()),
        Some("+1".to_string()),
        Some("x".to_string()),
    );
    assert!(policy.interval.is_zero());
    assert_eq!(policy.retention, 100);
    assert_eq!(policy.max_archive_bytes, 1024 * 1024);
    assert_eq!(policy.max_storage_bytes, 512 * 1024 * 1024);
    assert_eq!(BackupPolicy::from_env(None, Some("0".to_string()), None, None).retention, 1);
}

#[test]
fn built_archive_reads_back_to_the_data_files() {
    let files = vec![
        ("notes.txt".to_string(), b"before".to_vec()),
        ("nested/./deep.bin".to_string(), vec![0u8, 255, 7, 128, 64]),
        ("empty".to_string(), vec![]),
    ];
    let (archive, back) = archive_checked_by_decoding(&files, 1024, "test", 1, 9).unwrap();
    assert!(back);
    assert_eq!(archive.files.len(), 3);
    assert_eq!(archive.files[1].path, "nested/deep.bin");
    let restored = decode_archive_files(&archive).unwrap();
    assert_eq!(restored[0], ("notes.txt".to_string(), b"before".to_vec()));
    assert_eq!(restored[1], ("nested/deep.bin".to_string(), vec![0u8, 255, 7, 128, 64]));
    assert_eq!(restored[2], ("empty".to_string(), vec![]));
    assert!(archive_checked_by_decoding(&files, 2, "test", 1, 9).is_err());
}
