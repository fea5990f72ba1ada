use k_backup::archive::{ArchiveEntryConfig, Base64Source};
use k_backup::backup_config::BackupConfig;
use k_backup::compress::CompressorConfig;
use k_backup::encrypt::EncryptorConfig;
use k_backup::error::{Error, ErrorInternal};
use k_backup::retention::{ItemWithDateTime, RetentionConfig, Span};
use k_backup::schedule::{
    contains_path, insert_backup, latest_backup_time, loop_step, next_backup_time,
    validate_cron_str, LoopAction,
};
use k_backup::timestamp::Timestamp;

const DAY: i64 = 24 * 3600;
const HOUR: i64 = 3600;

fn noon() -> Timestamp {
    Timestamp::with_ymd_and_hms(2024, 1, 15, 12, 0, 0).unwrap()
}

fn before(now: Timestamp, secs: i64) -> Timestamp {
    Timestamp::new(now.timestamp() - secs, 0).unwrap()
}

fn config_with(retention: Option<RetentionConfig>) -> BackupConfig {
    BackupConfig {
        cron: "0 1 * * *".to_string(),
        archive_base_name: "test_backup".to_string(),
        out_dir: "/backup".to_string(),
        files: vec![ArchiveEntryConfig::Base64(Base64Source::new(
            "test content".as_bytes().to_vec(),
            "test.txt".to_string(),
        ))],
        compressor: CompressorConfig::NoCompression,
        encryptor: EncryptorConfig::NoEncryption,
        retention,
    }
}

fn archive_path(config: &BackupConfig, at: Timestamp) -> String {
    format!("/backup/{}", config.archive_file_name(at))
}

fn paths(set: &[ItemWithDateTime<String>]) -> Vec<String> {
    set.iter().map(|i| i.item.clone()).collect()
}

#[test]
fn test_valid_cron_expressions() {
    let valid_crons = vec!["0 1 * * *", "0 */6 * * *", "0 2 * * 0", "*/15 * * * *"];

    for cron in valid_crons {
        let result = validate_cron_str(cron, noon());
        assert!(result.is_ok(), "Cron '{}' should be valid", cron);
    }
}

#[test]
fn test_invalid_cron_expressions() {
    let invalid_crons = vec!["invalid", "60 1 * * *", "0 25 * * *", "0 1 32 * *"];

    for cron in invalid_crons {
        let result = validate_cron_str(cron, noon());
        assert!(result.is_err(), "Cron '{}' should be invalid", cron);
    }
}

#[test]
fn test_execute_backup_cycle() {
    let config = config_with(Some(RetentionConfig {
        default_retention: Span::from_secs(2 * 24 * 3600),
        daily_retention: None,
        monthly_retention: None,
        yearly_retention: None,
        min_backups: 1,
    }));
    let now = noon();
    let old_backup_path = archive_path(&config, before(now, 5 * DAY));
    let recent_backup_path = archive_path(&config, before(now, 12 * HOUR));

    let mut backup_set = Vec::new();
    assert!(insert_backup(&mut backup_set, old_backup_path.clone(), before(now, 5 * DAY)));
    assert!(insert_backup(&mut backup_set, recent_backup_path.clone(), before(now, 12 * HOUR)));
    assert_eq!(backup_set.len(), 2);

    let plan = config.execute_backup_cycle(&mut backup_set, now);

    assert_eq!(plan.expired, vec![old_backup_path.clone()], "Old backup should be deleted");
    assert_eq!(paths(&backup_set), vec![recent_backup_path.clone()], "Recent backup should be kept");
    assert_eq!(plan.file_name, "test_backup.2024-01-15T12h00m00s_0000.tar");

    let new_path = format!("/backup/{}", plan.file_name);
    let (next_backup, warning) = config
        .finish_backup_cycle(&mut backup_set, now, Ok((new_path.clone(), None)))
        .unwrap();

    assert!(warning.is_none());
    assert_eq!(backup_set.len(), 2);
    let new_backup = backup_set
        .iter()
        .find(|item| item.date_time == now)
        .expect("New backup should be in set");
    assert_eq!(new_backup.item, new_path);
    assert!(next_backup.timestamp() > now.timestamp());
    assert_eq!(next_backup, Timestamp::with_ymd_and_hms(2024, 1, 16, 1, 0, 0).unwrap());
}

#[test]
fn test_execute_backup_cycle_with_complex_retention() {
    let config = config_with(Some(RetentionConfig {
        default_retention: Span::from_secs(3 * 24 * 3600),
        daily_retention: Some(Span::from_secs(7 * 24 * 3600)),
        monthly_retention: None,
        yearly_retention: None,
        min_backups: 2,
    }));
    let now = noon();
    let very_old_path = archive_path(&config, before(now, 10 * DAY));
    let old_but_daily_kept_path = archive_path(&config, before(now, 5 * DAY));
    let recent_path = archive_path(&config, before(now, 12 * HOUR));

    let mut backup_set = Vec::new();
    insert_backup(&mut backup_set, very_old_path.clone(), before(now, 10 * DAY));
    insert_backup(&mut backup_set, old_but_daily_kept_path.clone(), before(now, 5 * DAY));
    insert_backup(&mut backup_set, recent_path.clone(), before(now, 12 * HOUR));
    assert_eq!(backup_set.len(), 3);

    let plan = config.execute_backup_cycle(&mut backup_set, now);

    assert_eq!(
        plan.expired,
        vec![very_old_path.clone()],
        "Very old backup should be deleted (outside daily retention)"
    );
    assert!(
        contains_path(&backup_set, &old_but_daily_kept_path),
        "Old backup should be kept (within daily retention)"
    );
    assert!(
        contains_path(&backup_set, &recent_path),
        "Recent backup should be kept (within default retention)"
    );

    let new_path = format!("/backup/{}", plan.file_name);
    let (next_backup, _) = config
        .finish_backup_cycle(&mut backup_set, now, Ok((new_path.clone(), None)))
        .unwrap();

    assert_eq!(backup_set.len(), 3);
    assert!(backup_set.iter().any(|item| item.date_time == now && item.item == new_path));
    assert!(next_backup.timestamp() > now.timestamp());
}

#[test]
fn test_execute_backup_cycle_min_backups_safety() {
    let config = config_with(Some(RetentionConfig {
        default_retention: Span::from_secs(1),
        daily_retention: None,
        monthly_retention: None,
        yearly_retention: None,
        min_backups: 3,
    }));
    let now = noon();
    let old_backup1_path = archive_path(&config, before(now, DAY));
    let old_backup2_path = archive_path(&config, before(now, 2 * DAY));

    let mut backup_set = Vec::new();
    insert_backup(&mut backup_set, old_backup1_path.clone(), before(now, DAY));
    insert_backup(&mut backup_set, old_backup2_path.clone(), before(now, 2 * DAY));
    assert_eq!(backup_set.len(), 2);

    let plan = config.execute_backup_cycle(&mut backup_set, now);

    assert!(plan.expired.is_empty());
    assert!(
        contains_path(&backup_set, &old_backup1_path),
        "Old backup 1 should be kept (min_backups safety)"
    );
    assert!(
        contains_path(&backup_set, &old_backup2_path),
        "Old backup 2 should be kept (min_backups safety)"
    );

    let new_path = format!("/backup/{}", plan.file_name);
    let (next_backup, _) = config
        .finish_backup_cycle(&mut backup_set, now, Ok((new_path, None)))
        .unwrap();

    assert_eq!(backup_set.len(), 3);
    assert!(backup_set.iter().any(|item| item.date_time == now));
    assert!(next_backup.timestamp() > now.timestamp());
}

#[test]
fn scheduler_recovery_scenario() {
    let config = config_with(None);
    let t0 = Timestamp::with_ymd_and_hms(2024, 1, 10, 1, 0, 0).unwrap();
    let t1 = Timestamp::with_ymd_and_hms(2024, 1, 14, 1, 0, 0).unwrap();
    let listing = vec![
        archive_path(&config, t1),
        "/backup/notes.txt".to_string(),
        archive_path(&config, t0),
        "/backup/other.2024-01-14T01h00m00s_0000.tar".to_string(),
        "/backup/test_backup.2024-01-14T01h00m00s_0000.tar.xz".to_string(),
        archive_path(&config, t1),
    ];

    let set = config.initial_backup_set(listing);

    assert_eq!(paths(&set), vec![archive_path(&config, t1), archive_path(&config, t0)]);
    assert_eq!(set[0].date_time, t1);
    assert_eq!(set[1].date_time, t0);
    assert_eq!(latest_backup_time(&set), t1);

    let next = config.first_backup_time(&set).unwrap();
    assert_eq!(next, Timestamp::with_ymd_and_hms(2024, 1, 15, 1, 0, 0).unwrap());
    assert_eq!(next, next_backup_time("0 1 * * *", t1).unwrap());

    let early = Timestamp::with_ymd_and_hms(2024, 1, 14, 20, 0, 0).unwrap();
    assert_eq!(loop_step(early, next), LoopAction::Sleep(Span::from_secs(5 * 3600)));
    assert_eq!(loop_step(next, next), LoopAction::Fire);
}

#[test]
fn scheduler_starts_from_the_epoch_without_archives() {
    let config = config_with(None);
    let set = config.initial_backup_set(vec!["/backup/readme".to_string()]);
    assert!(set.is_empty());
    assert_eq!(latest_backup_time(&set), Timestamp::unix_epoch());
    assert_eq!(
        config.first_backup_time(&set).unwrap(),
        Timestamp::with_ymd_and_hms(1970, 1, 1, 1, 0, 0).unwrap()
    );
}

#[test]
fn scheduler_first_time_fails_on_a_bad_cron() {
    let mut config = config_with(None);
    config.cron = "invalid cron".to_string();
    let err = config.first_backup_time(&Vec::new()).unwrap_err();
    assert!(matches!(err.inner(), ErrorInternal::ValidationError(_)));
}

#[test]
fn next_backup_time_is_strictly_later() {
    let at = Timestamp::with_ymd_and_hms(2024, 1, 15, 1, 0, 0).unwrap();
    assert_eq!(
        next_backup_time("0 1 * * *", at).unwrap(),
        Timestamp::with_ymd_and_hms(2024, 1, 16, 1, 0, 0).unwrap()
    );
    let just_before = Timestamp::new(at.timestamp() - 1, 999_999_999).unwrap();
    assert_eq!(next_backup_time("0 1 * * *", just_before).unwrap(), at);
    assert_eq!(
        next_backup_time("*/15 * * * *", at).unwrap(),
        Timestamp::with_ymd_and_hms(2024, 1, 15, 1, 15, 0).unwrap()
    );
    assert!(next_backup_time("nonsense", at).is_err());
}

#[test]
fn next_backup_time_ends_with_the_range() {
    let last = Timestamp::new(253_402_300_799, 0).unwrap();
    let err = next_backup_time("0 1 * * *", last).unwrap_err();
    assert!(matches!(err.inner(), ErrorInternal::ValidationError(_)));
}

#[test]
fn loop_step_sleeps_for_the_exact_difference() {
    let now = Timestamp::new(100, 600_000_000).unwrap();
    let next = Timestamp::new(102, 100_000_000).unwrap();
    assert_eq!(loop_step(now, next), LoopAction::Sleep(Span { secs: 1, nanos: 500_000_000 }));
    assert_eq!(loop_step(next, now), LoopAction::Fire);
    let close = Timestamp::new(100, 600_000_001).unwrap();
    assert_eq!(loop_step(now, close), LoopAction::Sleep(Span { secs: 0, nanos: 1 }));
}

#[test]
fn finish_backup_cycle_passes_a_failed_build_on() {
    let config = config_with(None);
    let now = noon();
    let mut set = Vec::new();
    insert_backup(&mut set, "/backup/a".to_string(), before(now, DAY));

    let err = config
        .finish_backup_cycle(&mut set, now, Err(Error::io("disk full")))
        .unwrap_err();

    assert_eq!(err.to_string(), "disk full");
    assert_eq!(paths(&set), vec!["/backup/a".to_string()]);
}

#[test]
fn finish_backup_cycle_hands_the_warning_back() {
    let config = config_with(None);
    let now = noon();
    let mut set = Vec::new();

    let (_, warning) = config
        .finish_backup_cycle(
            &mut set,
            now,
            Ok(("/backup/new".to_string(), Some(Error::io("one entry left out")))),
        )
        .unwrap();

    assert_eq!(warning.unwrap().to_string(), "one entry left out");
    assert_eq!(paths(&set), vec!["/backup/new".to_string()]);
}

#[test]
fn execute_backup_cycle_without_retention_drops_nothing() {
    let config = config_with(None);
    let now = noon();
    let mut set = Vec::new();
    insert_backup(&mut set, "/backup/a".to_string(), before(now, 4000 * DAY));
    let plan = config.execute_backup_cycle(&mut set, now);
    assert!(plan.expired.is_empty());
    assert_eq!(set.len(), 1);
}

#[test]
fn insert_backup_takes_a_path_once() {
    let now = noon();
    let mut set = Vec::new();
    assert!(insert_backup(&mut set, "/backup/a".to_string(), now));
    assert!(!insert_backup(&mut set, "/backup/a".to_string(), before(now, DAY)));
    assert_eq!(set.len(), 1);
    assert_eq!(set[0].date_time, now);
    assert!(contains_path(&set, &"/backup/a".to_string()));
    assert!(!contains_path(&set, &"/backup/b".to_string()));
}

#[test]
fn scheduler_without_a_parseable_child_fires_after_the_epoch() {
    let config = config_with(None);
    let set = config.initial_backup_set(vec![
        "/backup/notes.txt".to_string(),
        "/backup/test_backup.invalid.tar".to_string(),
        "/backup/".to_string(),
    ]);
    assert!(set.is_empty());
    let latest = latest_backup_time(&set);
    assert_eq!((latest.timestamp(), latest.subsec_nanos()), (0, 0));
    assert_eq!(
        config.first_backup_time(&set).unwrap(),
        next_backup_time("0 1 * * *", Timestamp::unix_epoch()).unwrap()
    );
}
