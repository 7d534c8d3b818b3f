use byetype::backup::{
    backup_file_name, backup_key, create_backup_zip, extract_backup_zip, generate_backup_key,
    require_s3_bucket, restore_plan, s3_target, select_backups, ArchiveFile, ArchiveItem, RestoreStep,
    StoredObject,
};
use byetype::config::S3Config;

fn s3(endpoint: &str, region: &str) -> S3Config {
    S3Config {
        endpoint: endpoint.to_string(),
        region: region.to_string(),
        bucket: "b".to_string(),
        access_key: "ak".to_string(),
        secret_key: "sk".to_string(),
        prefix: String::new(),
    }
}

#[test]
fn s3_settings_are_checked_in_order() {
    let mut c = s3("", "us-east-1");
    c.bucket.clear();
    c.access_key.clear();
    assert_eq!(s3_target(&c).unwrap_err(), "未配置 bucket");
    c.bucket = "b".to_string();
    assert_eq!(s3_target(&c).unwrap_err(), "未配置 Access Key 或 Secret Key");
    c.access_key = "ak".to_string();
    c.region.clear();
    assert_eq!(s3_target(&c).unwrap_err(), "未配置 region");
}

#[test]
fn endpoints_follow_aws_rules_or_the_settings() {
    let t = s3_target(&s3("", "us-east-1")).unwrap();
    assert_eq!((t.endpoint.as_str(), t.path_style), ("https://s3.amazonaws.com", false));
    assert_eq!(s3_target(&s3("", "cn-north-1")).unwrap().endpoint, "https://s3.cn-north-1.amazonaws.com.cn");
    assert_eq!(s3_target(&s3("", "eu-west-1")).unwrap().endpoint, "https://s3.eu-west-1.amazonaws.com");
    let t = s3_target(&s3("minio.local:9000", "auto")).unwrap();
    assert_eq!((t.endpoint.as_str(), t.path_style), ("https://minio.local:9000", true));
    assert_eq!(s3_target(&s3("http://x", "auto")).unwrap().endpoint, "http://x");
}

#[test]
fn s3_backup_needs_a_bucket() {
    let mut c = s3("", "r");
    assert!(require_s3_bucket(&c).is_ok());
    c.bucket.clear();
    assert_eq!(require_s3_bucket(&c), Err("请先在设置中配置 S3".to_string()));
}

#[test]
fn backup_keys_use_the_prefix_or_the_default() {
    assert_eq!(backup_key("", "20260101-120000"), "byetype/backups/byetype-backup-20260101-120000.zip");
    assert_eq!(backup_key("mine", "20260101-120000"), "mine/byetype-backup-20260101-120000.zip");
    assert_eq!(backup_file_name("x"), "byetype-backup-x.zip");
    let k = generate_backup_key("p");
    assert!(k.starts_with("p/byetype-backup-") && k.ends_with(".zip"));
    assert_eq!(k.len(), "p/byetype-backup-YYYYMMDD-HHMMSS.zip".len());
    let ts: Vec<char> = k["p/byetype-backup-".len()..k.len() - ".zip".len()].chars().collect();
    assert_eq!(ts[8], '-');
    assert!(ts.iter().enumerate().all(|(i, c)| i == 8 || c.is_ascii_digit()));
}

fn obj(key: &str, modified: Option<&str>) -> StoredObject {
    StoredObject { key: key.to_string(), size: 1, last_modified: modified.map(|s| s.to_string()) }
}

#[test]
fn backups_are_zip_objects_newest_first() {
    let listed = vec![
        obj("p/a.zip", Some("2026-01-02")),
        obj("p/notes.txt", Some("2026-01-09")),
        obj("p/b.zip", Some("2026-01-05")),
        obj("p/c.zip", None),
        obj("p/d.zip", Some("2026-01-05")),
    ];

    let keys: Vec<String> = select_backups(listed).into_iter().map(|e| e.key).collect();

    assert_eq!(keys, vec!["p/b.zip", "p/d.zip", "p/a.zip", "p/c.zip"]);
}

#[test]
fn archive_round_trip_restores_every_file() {
    let zip = create_backup_zip(
        Some(b"{\"a\":1}".to_vec()),
        vec![
            ArchiveFile { name: "agent.md".to_string(), data: b"- r\n".to_vec() },
            ArchiveFile { name: "词汇.md".to_string(), data: vec![0, 255, 7] },
        ],
    )
    .unwrap();

    let steps = extract_backup_zip(&zip).unwrap();

    let written: Vec<(String, Vec<u8>)> = steps
        .into_iter()
        .map(|s| match s {
            RestoreStep::WriteFile(p, d) => (p, d),
            RestoreStep::CreateDir(p) => panic!("unexpected directory {p}"),
        })
        .collect();
    assert_eq!(
        written,
        vec![
            ("config.json".to_string(), b"{\"a\":1}".to_vec()),
            ("prompts/agent.md".to_string(), b"- r\n".to_vec()),
            ("prompts/词汇.md".to_string(), vec![0, 255, 7]),
        ]
    );
}

#[test]
fn archive_without_config_is_refused() {
    let zip = create_backup_zip(None, vec![ArchiveFile { name: "x.md".to_string(), data: vec![1] }]).unwrap();

    assert_eq!(extract_backup_zip(&zip).unwrap_err(), "备份文件无效：缺少 config.json");
}

#[test]
fn unsafe_entries_are_skipped_and_directories_created() {
    let items = vec![
        ArchiveItem { name: "config.json".to_string(), path: Some("config.json".to_string()), is_dir: false, data: vec![1] },
        ArchiveItem { name: "../evil".to_string(), path: None, is_dir: false, data: vec![2] },
        ArchiveItem { name: "prompts/".to_string(), path: Some("prompts".to_string()), is_dir: true, data: vec![] },
    ];

    let steps = restore_plan(items).unwrap();

    assert_eq!(steps.len(), 2);
    assert!(matches!(&steps[0], RestoreStep::WriteFile(p, d) if p == "config.json" && d == &vec![1]));
    assert!(matches!(&steps[1], RestoreStep::CreateDir(p) if p == "prompts"));
}

#[test]
fn garbage_is_not_an_archive() {
    assert!(extract_backup_zip(b"not a zip").is_err());
}

#[test]
fn only_markdown_prompt_files_are_backed_up() {
    let zip = create_backup_zip(
        Some(b"{}".to_vec()),
        vec![
            ArchiveFile { name: "notes.txt".to_string(), data: vec![1] },
            ArchiveFile { name: "sub/terms.md".to_string(), data: vec![2] },
            ArchiveFile { name: "image.md.png".to_string(), data: vec![3] },
        ],
    )
    .unwrap();

    let written: Vec<String> = extract_backup_zip(&zip)
        .unwrap()
        .into_iter()
        .map(|s| match s {
            RestoreStep::WriteFile(p, _) => p,
            RestoreStep::CreateDir(p) => panic!("unexpected directory {p}"),
        })
        .collect();
    assert_eq!(written, vec!["config.json".to_string(), "prompts/sub/terms.md".to_string()]);
}

#[test]
fn a_repeated_prompt_name_is_refused_by_the_writer() {
    let result = create_backup_zip(
        None,
        vec![
            ArchiveFile { name: "a.md".to_string(), data: vec![1] },
            ArchiveFile { name: "a.md".to_string(), data: vec![2] },
        ],
    );
    assert!(result.is_err());
}
