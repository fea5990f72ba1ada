use k_backup::backup_config::BackupConfig;
use k_backup::compress::CompressorConfig;
use k_backup::encrypt::EncryptorConfig;
use k_backup::error::ErrorInternal;
use k_backup::notifications::{
    send_outcome, NotificationConfig, SendEvent, SmtpMode, SmtpNotificationConfig,
};
use k_backup::redacted::RedactedString;
use k_backup::timestamp::Timestamp;
use k_backup::validate::{
    validate_dir_exist, validate_dir_exist_or_created, validate_sql_file,
    validate_valid_archive_base_name, validate_writable_dir, DirState,
};

const THERE: DirState = DirState { exists: true, is_dir: true };
const FILE: DirState = DirState { exists: true, is_dir: false };
const MISSING: DirState = DirState { exists: false, is_dir: false };

fn now() -> Timestamp {
    Timestamp::with_ymd_and_hms(2024, 1, 15, 12, 0, 0).unwrap()
}

fn config(cron: &str, base: &str) -> BackupConfig {
    BackupConfig {
        cron: cron.to_string(),
        archive_base_name: base.to_string(),
        out_dir: "/backup".to_string(),
        files: vec![],
        compressor: CompressorConfig::NoCompression,
        encryptor: EncryptorConfig::NoEncryption,
        retention: None,
    }
}

fn smtp(to: Vec<&str>) -> SmtpNotificationConfig {
    SmtpNotificationConfig {
        host: "smtp.example.com".to_string(),
        smtp_mode: SmtpMode::Ssl,
        from: "test@example.com".to_string(),
        to: to.into_iter().map(|t| t.to_string()).collect(),
        username: "testuser".to_string(),
        password: RedactedString::new("testpass"),
    }
}

#[test]
fn test_archive_base_name_validation() {
    let valid_names = vec!["backup", "test_backup", "my-backup-123"];
    for name in valid_names {
        let result = validate_valid_archive_base_name(name);
        assert!(result.is_ok(), "Name '{}' should be valid", name);
    }

    let long_name = "x".repeat(101);
    let invalid_names = vec!["backup/with/slash", "backup\0with\0null", &long_name];
    for name in invalid_names {
        let result = validate_valid_archive_base_name(name);
        assert!(result.is_err(), "Name '{}' should be invalid", name);
    }
}

#[test]
fn base_name_limit_is_one_hundred_characters() {
    assert!(validate_valid_archive_base_name(&"x".repeat(100)).is_ok());
    assert!(validate_valid_archive_base_name(&"é".repeat(100)).is_ok());
    assert!(validate_valid_archive_base_name(&"é".repeat(101)).is_err());
    assert!(validate_valid_archive_base_name("").is_ok());
    let err = validate_valid_archive_base_name("a/b").unwrap_err();
    assert!(matches!(err.inner(), ErrorInternal::ValidationError(_)));
}

#[test]
fn test_out_dir_validation() {
    let result = validate_dir_exist_or_created(THERE, None);
    assert!(result.is_ok());

    let result = validate_dir_exist_or_created(MISSING, Some(Ok(())));
    assert!(result.is_ok());
}

#[test]
fn out_dir_that_is_a_file_or_cannot_be_made_is_refused() {
    assert!(validate_dir_exist_or_created(FILE, Some(Ok(()))).is_err());
    assert!(validate_dir_exist_or_created(MISSING, None).is_err());
    let err = validate_dir_exist_or_created(MISSING, Some(Err("denied".to_string()))).unwrap_err();
    assert_eq!(err.to_string(), "cannot create or access out_dir path: denied");
}

#[test]
fn dir_must_be_there() {
    assert!(validate_dir_exist(THERE).is_ok());
    assert!(validate_dir_exist(FILE).is_err());
    assert!(validate_dir_exist(MISSING).is_err());
}

#[test]
fn writable_dir_rules() {
    assert!(validate_writable_dir(THERE, None, Ok(false)).is_ok());
    assert!(validate_writable_dir(MISSING, Some(Ok(())), Ok(false)).is_ok());
    assert!(validate_writable_dir(THERE, None, Ok(true)).is_err());
    assert!(validate_writable_dir(THERE, None, Err("gone".to_string())).is_err());
    assert!(validate_writable_dir(FILE, None, Ok(false)).is_err());
    assert!(validate_writable_dir(MISSING, None, Ok(false)).is_err());
}

#[test]
fn sql_file_rules() {
    assert!(validate_sql_file(Ok(())).is_ok());
    let err = validate_sql_file(Err("unable to open database file".to_string())).unwrap_err();
    assert_eq!(err.to_string(), "cannot open sql file: unable to open database file");
}

#[test]
fn test_backup_config_invalid_cron() {
    let config = config("invalid cron", "test");

    assert!(config.validate(now(), THERE, None, Ok(false)).is_err());
}

#[test]
fn backup_config_lists_every_broken_rule() {
    assert!(config("0 1 * * *", "test").validate(now(), THERE, None, Ok(false)).is_ok());
    assert!(config("0 1 * * *", "test").validate(now(), MISSING, Some(Ok(())), Ok(false)).is_ok());
    let err = config("bad", "a/b").validate(now(), FILE, None, Ok(false)).unwrap_err();
    assert_eq!(err.into_error_iter().len(), 3);
    let err = config("0 1 * * *", "a/b").validate(now(), THERE, None, Ok(false)).unwrap_err();
    assert_eq!(err.into_error_iter().len(), 1);
}

#[test]
fn backup_config_needs_a_writable_out_dir() {
    let err = config("0 1 * * *", "test").validate(now(), THERE, None, Ok(true)).unwrap_err();
    let parts = err.into_error_iter();
    assert_eq!(parts.len(), 1);
    assert_eq!(parts[0].to_string(), "cannot write to dir");
    assert!(config("0 1 * * *", "test")
        .validate(now(), THERE, None, Err("no metadata".to_string()))
        .is_err());
}

#[test]
fn smtp_mail_carries_topic_and_message() {
    let config = smtp(vec!["a@example.com", "b@example.com"]);
    let mail = config.mail("Test Subject", "Test message body");
    assert_eq!(mail.from, "test@example.com");
    assert_eq!(mail.to, vec!["a@example.com".to_string(), "b@example.com".to_string()]);
    assert_eq!(mail.subject, "Test Subject");
    assert_eq!(mail.body, "Test message body");
    assert_eq!(mail.host, "smtp.example.com");
    assert_eq!(mail.smtp_mode, SmtpMode::Ssl);
    assert_eq!(mail.username, "testuser");
}

#[test]
fn test_smtp_notification_validation() {
    let valid_config = smtp(vec!["recipient@example.com"]);
    assert!(valid_config.validate().is_ok());

    let invalid_config = smtp(vec![]);
    assert!(invalid_config.validate().is_err());
    assert!(NotificationConfig::Smtp(invalid_config).validate().is_err());
    assert!(NotificationConfig::Smtp(valid_config).validate().is_ok());
}

#[test]
fn smtp_positive_answer_is_success() {
    assert!(send_outcome(true, &vec!["250 ok".to_string()]).is_ok());
    assert!(send_outcome(true, &vec![]).is_ok());
    let config = smtp(vec!["recipient@example.com"]);
    assert!(config
        .send(SendEvent::Answered { positive: true, messages: vec!["250 ok".to_string()] })
        .is_ok());
}

#[test]
fn smtp_negative_answer_lists_the_lines_of_the_server() {
    let err = send_outcome(false, &vec!["550 no".to_string(), "try later".to_string()]).unwrap_err();
    let parts = err.into_error_iter();
    assert_eq!(parts.len(), 2);
    assert!(matches!(parts[0].inner(), ErrorInternal::SmtpSendError(t) if t == "550 no"));
    assert!(matches!(parts[1].inner(), ErrorInternal::SmtpSendError(t) if t == "try later"));
}

#[test]
fn smtp_negative_answer_without_lines_is_still_one_error() {
    let err = send_outcome(false, &vec![]).unwrap_err();
    let parts = err.into_error_iter();
    assert_eq!(parts.len(), 1);
    assert!(matches!(parts[0].inner(), ErrorInternal::SmtpSendError(t) if t.is_empty()));
}

#[test]
fn smtp_failures_before_the_answer() {
    let config = NotificationConfig::Smtp(smtp(vec!["recipient@example.com"]));
    let err = config.send(SendEvent::MessageNotBuilt("missing sender".to_string())).unwrap_err();
    assert_eq!(
        err.to_string(),
        "send() failed:\n  Fail to build notification email:\n    missing sender"
    );
    let err = config.send(SendEvent::ClientNotBuilt("bad host".to_string())).unwrap_err();
    assert_eq!(err.to_string(), "send() failed:\n  Failed to build smtp client:\n    bad host");
    let err = config.send(SendEvent::NotSent("connection refused".to_string())).unwrap_err();
    assert_eq!(err.to_string(), "send() failed:\n  connection refused");
    let err = config
        .send(SendEvent::Answered { positive: false, messages: vec!["550".to_string()] })
        .unwrap_err();
    assert_eq!(err.to_string(), "550");
}

#[test]
fn smtp_send_states_what_the_answer_means() {
    let config = smtp(vec!["recipient@example.com"]);
    let err = config
        .send(SendEvent::Answered {
            positive: false,
            messages: vec!["550 no".to_string(), "try later".to_string()],
        })
        .unwrap_err();
    let parts = err.into_error_iter();
    assert_eq!(parts.len(), 2);
    assert!(matches!(parts[0].inner(), ErrorInternal::SmtpSendError(t) if t == "550 no"));
    assert!(matches!(parts[1].inner(), ErrorInternal::SmtpSendError(t) if t == "try later"));
    let err = config
        .send(SendEvent::Answered { positive: false, messages: vec![] })
        .unwrap_err();
    let parts = err.into_error_iter();
    assert_eq!(parts.len(), 1);
    assert!(matches!(parts[0].inner(), ErrorInternal::SmtpSendError(t) if t.is_empty()));
}
