use k_backup::backup_config::{BackupConfig, UtcOffset};
use k_backup::compress::{CompressorConfig, XzConfig};
use k_backup::encrypt::{AgeEncryptorConfig, EncryptorConfig};
use k_backup::file_ext::FileExtProvider;
use k_backup::redacted::RedactedString;
use k_backup::timestamp::Timestamp;

fn create_test_config() -> BackupConfig {
    BackupConfig {
        cron: "0 1 * * *".to_string(),
        archive_base_name: "test_backup".to_string(),
        out_dir: "/tmp/backup".to_string(),
        files: vec![],
        compressor: CompressorConfig::NoCompression,
        encryptor: EncryptorConfig::NoEncryption,
        retention: None,
    }
}

fn full_config() -> BackupConfig {
    let mut config = create_test_config();
    config.archive_base_name = "db".to_string();
    config.compressor = CompressorConfig::Xz(XzConfig::new(6, 2));
    config.encryptor = EncryptorConfig::Age(AgeEncryptorConfig::Passphrase {
        passphrase: RedactedString::new("test-passphrase-123"),
    });
    config
}

#[test]
fn test_file_ext_generation() {
    let config = create_test_config();
    let ext = config.file_ext();
    assert!(ext.is_some());
    assert_eq!(ext.unwrap().as_str(), "tar");
}

#[test]
fn test_time_file_ext() {
    let config = create_test_config();
    let dt = Timestamp::with_ymd_and_hms(2024, 1, 15, 14, 30, 45).unwrap();
    let ext = config.time_file_ext(dt);
    assert_eq!(ext, "2024-01-15T14h30m45s_0000.tar");
}

#[test]
fn test_get_date_time_from_file_path() {
    let config = create_test_config();
    let dt = Timestamp::with_ymd_and_hms(2024, 1, 15, 14, 30, 45).unwrap();

    let filename = format!("test_backup.{}", config.time_file_ext(dt));

    let parsed_dt = config.get_date_time_from_file_name(&filename);
    assert!(parsed_dt.is_some());
    assert_eq!(parsed_dt.unwrap().day_number(), dt.day_number());
}

#[test]
fn test_get_date_time_from_invalid_path() {
    let config = create_test_config();

    let invalid_paths = vec![
        "wrong_prefix.2024-01-15T14h30m45s_0000.tar",
        "test_backup.invalid_timestamp.tar",
        "test_backup.2024-01-15T14h30m45s_0000.wrong_ext",
    ];

    for path in invalid_paths {
        let result = config.get_date_time_from_file_name(path);
        assert!(result.is_none(), "Path '{}' should not parse", path);
    }
}

#[test]
fn codec_round_trip_scenario() {
    let config = create_test_config();
    let dt = Timestamp::with_ymd_and_hms(2024, 1, 15, 14, 30, 45).unwrap();

    let name = config.archive_file_name(dt);
    assert_eq!(name, "test_backup.2024-01-15T14h30m45s_0000.tar");
    assert_eq!(config.get_date_time_from_file_name(&name), Some(dt));
    assert_eq!(dt.timestamp(), 1_705_329_045);
    assert!(config
        .get_date_time_from_file_name("wrong.2024-01-15T14h30m45s_0000.tar")
        .is_none());
}

#[test]
fn codec_name_with_all_extensions() {
    let config = full_config();
    let dt = Timestamp::with_ymd_and_hms(2024, 1, 15, 14, 30, 45).unwrap();

    let name = config.archive_file_name(dt);
    assert_eq!(name, "db.2024-01-15T14h30m45s_0000.tar.xz.age");
    assert_eq!(config.file_ext().unwrap(), "tar.xz.age");
    assert_eq!(config.get_date_time_from_file_name(&name), Some(dt));
    assert!(config
        .get_date_time_from_file_name("db.2024-01-15T14h30m45s_0000.tar.xz")
        .is_none());
    assert!(config
        .get_date_time_from_file_name("db.2024-01-15T14h30m45s_0000.tar")
        .is_none());
}

#[test]
fn codec_round_trips_over_the_whole_range() {
    let config = create_test_config();
    let samples: [i64; 9] = [
        -62_167_219_200,
        -62_167_219_199,
        -1,
        0,
        951_782_400,
        1_709_251_199,
        4_102_444_800,
        253_402_300_798,
        253_402_300_799,
    ];
    for secs in samples {
        let dt = Timestamp::new(secs, 0).unwrap();
        let name = config.archive_file_name(dt);
        assert_eq!(config.get_date_time_from_file_name(&name), Some(dt), "{}", name);
    }
}

#[test]
fn codec_first_and_last_names() {
    let config = create_test_config();
    let first = Timestamp::new(-62_167_219_200, 0).unwrap();
    let last = Timestamp::new(253_402_300_799, 0).unwrap();
    assert_eq!(config.archive_file_name(first), "test_backup.0000-01-01T00h00m00s_0000.tar");
    assert_eq!(config.archive_file_name(last), "test_backup.9999-12-31T23h59m59s_0000.tar");
}

#[test]
fn codec_drops_the_fraction_of_a_second() {
    let config = create_test_config();
    let dt = Timestamp::new(1_705_329_045, 999_999_999).unwrap();
    let name = config.archive_file_name(dt);
    assert_eq!(name, "test_backup.2024-01-15T14h30m45s_0000.tar");
    assert_eq!(
        config.get_date_time_from_file_name(&name),
        Some(Timestamp::new(1_705_329_045, 0).unwrap())
    );
}

#[test]
fn codec_applies_the_offset() {
    let config = create_test_config();
    let utc = Timestamp::with_ymd_and_hms(2024, 1, 15, 14, 30, 45).unwrap();
    assert_eq!(
        config.get_date_time_from_file_name("test_backup.2024-01-15T16h30m45s_0200.tar"),
        Some(utc)
    );
    assert_eq!(
        config.get_date_time_from_file_name("test_backup.2024-01-15T09h00m45s-0530.tar"),
        Some(utc)
    );
    assert_eq!(
        config.get_date_time_from_file_name("test_backup.2024-01-15T14h30m45s-0000.tar"),
        Some(utc)
    );
}

#[test]
fn codec_rejects_what_is_not_canonical() {
    let config = create_test_config();
    let bad = [
        "",
        "test_backup",
        "test_backup.",
        "test_backup..tar",
        "test_backup.tar",
        "test_backup.2024-01-15T14h30m45s+0000.tar",
        "test_backup.2024-1-15T14h30m45s_0000.tar",
        "test_backup.2024-01-15T14:30:45s_0000.tar",
        "test_backup.2024-01-15T14h30m45s_000.tar",
        "test_backup.2024-01-15T14h30m45s_00000.tar",
        "test_backup.2024-01-15T14h30m45s_0000.tar.xz",
        "test_backup.2024-13-15T14h30m45s_0000.tar",
        "test_backup.2024-00-15T14h30m45s_0000.tar",
        "test_backup.2024-02-30T14h30m45s_0000.tar",
        "test_backup.2023-02-29T14h30m45s_0000.tar",
        "test_backup.2024-01-15T24h30m45s_0000.tar",
        "test_backup.2024-01-15T14h60m45s_0000.tar",
        "test_backup.2024-01-15T14h30m60s_0000.tar",
        "test_backup.2024-01-15T14h30m45s_2400.tar",
        "test_backup.2024-01-15T14h30m45s_0060.tar",
        "test_backup.0000-01-01T00h00m00s_0001.tar",
        "test_backup.9999-12-31T23h59m59s-0001.tar",
        "test_backup.２０２４-01-15T14h30m45s_0000.tar",
        "Test_backup.2024-01-15T14h30m45s_0000.tar",
        "xtest_backup.2024-01-15T14h30m45s_0000.tar",
    ];
    for name in bad {
        assert!(config.get_date_time_from_file_name(name).is_none(), "{:?}", name);
    }
    assert!(config
        .get_date_time_from_file_name("test_backup.2024-02-29T14h30m45s_0000.tar")
        .is_some());
}

#[test]
fn codec_base_name_may_hold_dots_and_other_scripts() {
    let mut config = create_test_config();
    config.archive_base_name = "día.v1".to_string();
    let dt = Timestamp::with_ymd_and_hms(2024, 1, 15, 14, 30, 45).unwrap();
    let name = config.archive_file_name(dt);
    assert_eq!(name, "día.v1.2024-01-15T14h30m45s_0000.tar");
    assert_eq!(config.get_date_time_from_file_name(&name), Some(dt));
}

#[test]
fn scenario_xz_and_passphrase_plan() {
    let mut config = full_config();
    config.archive_base_name = "test_backup".to_string();
    let dt = Timestamp::with_ymd_and_hms(2024, 1, 15, 12, 0, 0).unwrap();
    let name = config.archive_file_name(dt);
    assert!(name.ends_with(".tar.xz.age"));
    assert_eq!(name, "test_backup.2024-01-15T12h00m00s_0000.tar.xz.age");
    assert_eq!(
        config.compressor.build_compressor(),
        k_backup::compress::CompressorStage::XzParallel { level: 6, threads: 2 }
    );
    match config.encryptor.build_encryptor() {
        k_backup::encrypt::EncryptorStage::Passphrase(secret) => {
            assert_eq!(secret.inner(), "test-passphrase-123")
        }
        _ => panic!("expected a passphrase stage"),
    }
    assert!(config.compressor.validate().is_ok());
    assert!(config.encryptor.validate().is_ok());
}

#[test]
fn file_path_is_read_by_its_file_name() {
    let config = create_test_config();
    let dt = Timestamp::with_ymd_and_hms(2024, 1, 15, 14, 30, 45).unwrap();
    assert_eq!(
        config.get_date_time_from_file_path("/backup/dir/test_backup.2024-01-15T14h30m45s_0000.tar"),
        Some(dt)
    );
    assert_eq!(
        config.get_date_time_from_file_path("test_backup.2024-01-15T14h30m45s_0000.tar"),
        Some(dt)
    );
    assert_eq!(
        config.get_date_time_from_file_path("relative/test_backup.2024-01-15T14h30m45s_0000.tar"),
        Some(dt)
    );
}

#[test]
fn file_path_without_an_archive_name_gives_nothing() {
    let config = create_test_config();
    let none = [
        "",
        "/",
        "..",
        "/backup/..",
        "/backup/test_backup.2024-01-15T14h30m45s_0000.tar/inner.txt",
        "/test_backup.2024-01-15T14h30m45s_0000.tar/..",
        "/backup/wrong.2024-01-15T14h30m45s_0000.tar",
        "/backup/test_backup.2024-01-15T14h30m45s_0000.tar.xz",
    ];
    for path in none {
        assert!(config.get_date_time_from_file_path(path).is_none(), "{:?}", path);
    }
}

#[test]
fn codec_writes_a_western_offset_with_its_minus_sign() {
    let config = create_test_config();
    // 14:30:45 at five hours west of UTC
    let dt = Timestamp::with_ymd_and_hms(2024, 1, 15, 19, 30, 45).unwrap();
    let ext = config.time_file_ext_at(dt, UtcOffset::west(5, 0)).unwrap();
    assert_eq!(ext, "2024-01-15T14h30m45s-0500.tar");
    assert!(!ext.contains('+'));
    let name = config.archive_file_name_at(dt, UtcOffset::west(5, 0)).unwrap();
    assert_eq!(name, "test_backup.2024-01-15T14h30m45s-0500.tar");
    assert_eq!(config.get_date_time_from_file_name(&name), Some(dt));
}

#[test]
fn codec_writes_an_eastern_offset_with_an_underscore() {
    let config = create_test_config();
    let dt = Timestamp::with_ymd_and_hms(2024, 1, 15, 14, 30, 45).unwrap();
    let name = config.archive_file_name_at(dt, UtcOffset::east(5, 30)).unwrap();
    assert_eq!(name, "test_backup.2024-01-15T20h00m45s_0530.tar");
    assert!(!name.contains('+'));
    assert_eq!(config.get_date_time_from_file_name(&name), Some(dt));
    let next_day = config.archive_file_name_at(dt, UtcOffset::east(23, 59)).unwrap();
    assert_eq!(next_day, "test_backup.2024-01-16T14h29m45s_2359.tar");
    assert_eq!(config.get_date_time_from_file_name(&next_day), Some(dt));
}

#[test]
fn codec_at_no_offset_writes_what_the_utc_form_writes() {
    let config = create_test_config();
    let dt = Timestamp::with_ymd_and_hms(2024, 1, 15, 14, 30, 45).unwrap();
    assert_eq!(
        config.archive_file_name_at(dt, UtcOffset::utc()).unwrap(),
        config.archive_file_name(dt)
    );
    assert_eq!(
        config.time_file_ext_at(dt, UtcOffset::utc()).unwrap(),
        config.time_file_ext(dt)
    );
    assert_eq!(UtcOffset::west(0, 0), UtcOffset::utc());
}

#[test]
fn codec_refuses_an_offset_it_cannot_write() {
    let config = create_test_config();
    let dt = Timestamp::with_ymd_and_hms(2024, 1, 15, 14, 30, 45).unwrap();
    assert!(config.archive_file_name_at(dt, UtcOffset { east_minutes: 1440 }).is_none());
    assert!(config.archive_file_name_at(dt, UtcOffset { east_minutes: -1440 }).is_none());
    assert!(config.archive_file_name_at(dt, UtcOffset { east_minutes: 1439 }).is_some());
    assert!(config.archive_file_name_at(dt, UtcOffset { east_minutes: -1439 }).is_some());
    let first = Timestamp::new(-62_167_219_200, 0).unwrap();
    assert!(config.archive_file_name_at(first, UtcOffset::west(0, 1)).is_none());
    assert!(config.archive_file_name_at(first, UtcOffset::east(0, 1)).is_some());
    let last = Timestamp::new(253_402_300_799, 0).unwrap();
    assert!(config.archive_file_name_at(last, UtcOffset::east(0, 1)).is_none());
    assert_eq!(
        config.archive_file_name_at(last, UtcOffset::west(0, 1)).unwrap(),
        "test_backup.9999-12-31T23h58m59s-0001.tar"
    );
}

#[test]
fn codec_round_trips_at_every_kind_of_offset() {
    let config = create_test_config();
    let offsets = [-1439, -720, -300, -1, 0, 1, 330, 765, 1439];
    let instants: [i64; 4] = [0, 951_782_400, 1_709_251_199, 4_102_444_800];
    for east_minutes in offsets {
        for secs in instants {
            let dt = Timestamp::new(secs, 0).unwrap();
            let name = config.archive_file_name_at(dt, UtcOffset { east_minutes }).unwrap();
            assert_eq!(config.get_date_time_from_file_name(&name), Some(dt), "{}", name);
        }
    }
}
