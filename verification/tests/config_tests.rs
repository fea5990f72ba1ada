use k_backup::compress::{
    default_level, default_thread, CompressorConfig, CompressorStage, XzConfig,
};
use k_backup::encrypt::{AgeEncryptorConfig, EncryptorConfig, EncryptorStage};
use k_backup::error::ErrorInternal;
use k_backup::file_ext::FileExtProvider;
use k_backup::finish::Finish;
use k_backup::redacted::{RedactedString, REDACTED_PASSPHRASE};
use std::io::{Cursor, Error};

#[test]
fn test_compressor_config_none() {
    let config = CompressorConfig::NoCompression;
    assert!(config.validate().is_ok());
    assert!(config.file_ext().is_none());
}

#[test]
fn test_compressor_config_xz() {
    let config = CompressorConfig::Xz(XzConfig::default());
    assert!(config.validate().is_ok());
    assert!(config.file_ext().is_some());
    assert_eq!(config.file_ext().unwrap().as_str(), "xz");
}

#[test]
fn test_compressor_builder_none() {
    let config = CompressorConfig::NoCompression;
    let compressor = config.build_compressor();

    match compressor {
        CompressorStage::Identity => (),
        _ => panic!("Expected None compressor"),
    }
}

#[test]
fn test_compressor_config_default() {
    let config = CompressorConfig::default();
    assert!(matches!(config, CompressorConfig::NoCompression));
}

#[test]
fn test_xz_config_validation() {
    let valid_configs = vec![XzConfig::new(0, 4), XzConfig::new(5, 4), XzConfig::new(9, 8)];

    for config in valid_configs {
        assert!(config.validate().is_ok());
    }
}

#[test]
fn test_xz_config_invalid_level() {
    let config = XzConfig::new(10, 1);
    assert!(config.validate().is_err());
}

#[test]
fn test_xz_config_invalid_thread() {
    let config = XzConfig::new(5, 0);
    assert!(config.validate().is_err());
}

#[test]
fn test_build_compressor_single_thread() {
    let config = XzConfig::new(6, 1);
    let compressor = config.build_compressor();

    match compressor {
        CompressorStage::Xz { level: 6 } => (),
        _ => panic!("Expected XzEncoder"),
    }
}

#[test]
fn test_build_compressor_multi_thread() {
    let config = XzConfig::new(6, 4);
    let compressor = config.build_compressor();

    match compressor {
        CompressorStage::XzParallel { level: 6, threads: 4 } => (),
        _ => panic!("Expected XzEncoder"),
    }
}

#[test]
fn compressor_threads_are_held_to_thirty_two() {
    assert_eq!(
        XzConfig::new(9, 33).build_compressor(),
        CompressorStage::XzParallel { level: 9, threads: 32 }
    );
    assert_eq!(
        XzConfig::new(9, usize::MAX).build_compressor(),
        CompressorStage::XzParallel { level: 9, threads: 32 }
    );
    assert_eq!(
        XzConfig::new(0, 32).build_compressor(),
        CompressorStage::XzParallel { level: 0, threads: 32 }
    );
    assert_eq!(
        XzConfig::new(0, 2).build_compressor(),
        CompressorStage::XzParallel { level: 0, threads: 2 }
    );
    assert_eq!(
        CompressorConfig::Xz(XzConfig::new(3, 1)).build_compressor(),
        CompressorStage::Xz { level: 3 }
    );
}

#[test]
fn compressor_defaults() {
    assert_eq!(default_level(), 3);
    assert_eq!(default_thread(None), 1);
    assert_eq!(default_thread(Some(0)), 1);
    assert_eq!(default_thread(Some(1)), 1);
    assert_eq!(default_thread(Some(2)), 1);
    assert_eq!(default_thread(Some(8)), 4);
    assert_eq!(default_thread(Some(64)), 32);
    assert_eq!(default_thread(Some(65)), 32);
    assert_eq!(default_thread(Some(1000)), 32);
    assert_eq!(XzConfig::default(), XzConfig::new(3, 1));
}

#[test]
fn compressor_validation_error_kind() {
    let err = XzConfig::new(10, 1).validate().unwrap_err();
    assert!(matches!(err.inner(), ErrorInternal::ValidationError(_)));
    let err = CompressorConfig::Xz(XzConfig::new(1, 0)).validate().unwrap_err();
    assert!(matches!(err.inner(), ErrorInternal::ValidationError(_)));
}

#[test]
fn test_age_encryptor_config_validation() {
    let valid_config = AgeEncryptorConfig::Passphrase {
        passphrase: RedactedString::new("valid_passphrase_123"),
    };
    assert!(valid_config.validate().is_ok());

    let invalid_config = AgeEncryptorConfig::Passphrase {
        passphrase: RedactedString::new("1234567"),
    };
    assert!(invalid_config.validate().is_err());
}

#[test]
fn test_build_encryptor() {
    let config = AgeEncryptorConfig::Passphrase {
        passphrase: RedactedString::new("test_passphrase_123"),
    };

    let encryptor = config.build_encryptor();

    match encryptor {
        EncryptorStage::Passphrase(secret) => assert_eq!(secret.inner(), "test_passphrase_123"),
        _ => panic!("Expected AgeEncryptor"),
    }
}

#[test]
fn test_encryptor_config_none() {
    let config = EncryptorConfig::NoEncryption;
    assert!(config.validate().is_ok());
    assert!(config.file_ext().is_none());
}

#[test]
fn test_encryptor_config_age() {
    let config = EncryptorConfig::Age(AgeEncryptorConfig::Passphrase {
        passphrase: RedactedString::new("test_passphrase_123"),
    });
    assert!(config.validate().is_ok());
    assert!(config.file_ext().is_some());
    assert_eq!(config.file_ext().unwrap().as_str(), "age");
}

#[test]
fn test_encryptor_builder_none() {
    let config = EncryptorConfig::NoEncryption;
    let encryptor = config.build_encryptor();

    match encryptor {
        EncryptorStage::Identity => (),
        _ => panic!("Expected None encryptor"),
    }
}

#[test]
fn test_encryptor_config_default() {
    let config = EncryptorConfig::default();
    assert!(matches!(config, EncryptorConfig::NoEncryption));
}

#[test]
fn encryptor_config_hands_the_passphrase_to_the_stage() {
    let config = EncryptorConfig::Age(AgeEncryptorConfig::Passphrase {
        passphrase: RedactedString::new("test-passphrase-123"),
    });
    match config.build_encryptor() {
        EncryptorStage::Passphrase(secret) => assert_eq!(secret.inner(), "test-passphrase-123"),
        _ => panic!("expected a passphrase stage"),
    }
    let short = EncryptorConfig::Age(AgeEncryptorConfig::Passphrase {
        passphrase: RedactedString::new("short"),
    });
    let err = short.validate().unwrap_err();
    assert!(matches!(err.inner(), ErrorInternal::ValidationError(_)));
}

#[test]
fn test_redacted_string_validation() {
    let valid = RedactedString::new("valid_password");
    assert!(valid.validate().is_ok());

    let invalid = RedactedString::new("short");
    assert!(invalid.validate().is_err());
}

#[test]
fn test_redacted_string_zeroize() {
    let mut redacted = RedactedString::new("secret_password");
    redacted.zeroize();
    assert_eq!(redacted.inner(), "");
}

#[test]
fn redacted_string_shows_only_the_token() {
    let secret = RedactedString::new("secret_password");
    assert_eq!(secret.debug_string(), "###REDACTED_PASSPHRASE###");
    assert_eq!(secret.serialized(), "###REDACTED_PASSPHRASE###");
    assert_eq!(REDACTED_PASSPHRASE, "###REDACTED_PASSPHRASE###");
    assert_eq!(secret.inner(), "secret_password");
}

#[test]
fn redacted_string_length_is_counted_in_characters() {
    assert!(RedactedString::new("12345678").validate().is_ok());
    assert!(RedactedString::new("1234567").validate().is_err());
    assert!(RedactedString::new("").validate().is_err());
    // seven characters, more than eight bytes
    assert!(RedactedString::new("ééééééé").validate().is_err());
    assert!(RedactedString::new("éééééééé").validate().is_ok());
}

#[test]
fn redacted_string_clone_and_equality_use_the_secret() {
    let a = RedactedString::new("secret_password");
    let b = a.clone();
    assert!(a == b);
    assert!(a != RedactedString::new("other_password"));
}

struct TestProvider {
    ext: Option<&'static str>,
}

impl FileExtProvider for TestProvider {
    fn file_ext(&self) -> Option<String> {
        self.ext.map(|e| e.to_string())
    }
}

#[test]
fn test_file_ext_provider_some() {
    let provider = TestProvider { ext: Some("txt") };

    assert!(provider.file_ext().is_some());
    assert_eq!(provider.file_ext().unwrap().as_str(), "txt");
}

#[test]
fn test_file_ext_provider_none() {
    let provider = TestProvider { ext: None };

    assert!(provider.file_ext().is_none());
}

#[test]
fn test_file_ext_provider_arc_str() {
    let ext = "json";
    let provider = TestProvider { ext: Some(ext) };

    assert!(provider.file_ext().is_some());
    assert_eq!(provider.file_ext().unwrap().as_str(), ext);
}

#[test]
fn test_file_ext_provider_multiple_calls() {
    let provider = TestProvider { ext: Some("xml") };

    let first_ext = provider.file_ext().unwrap();
    let second_ext = provider.file_ext().unwrap();
    assert_eq!(first_ext.as_str(), second_ext.as_str());
}

struct TestFinisher {
    inner: Cursor<Vec<u8>>,
    should_fail: bool,
}

impl Finish<Cursor<Vec<u8>>> for TestFinisher {
    fn finish(self) -> Result<Cursor<Vec<u8>>, Error> {
        if self.should_fail {
            Err(Error::new(std::io::ErrorKind::Other, "Test failure"))
        } else {
            Ok(self.inner)
        }
    }
}

#[test]
fn test_finish_trait_success() {
    let cursor = Cursor::new(vec![1, 2, 3]);
    let finisher = TestFinisher { inner: cursor, should_fail: false };

    let result = finisher.finish();
    assert!(result.is_ok());

    let returned_cursor = result.unwrap();
    assert_eq!(returned_cursor.get_ref(), &vec![1, 2, 3]);
}

#[test]
fn test_finish_trait_failure() {
    let cursor = Cursor::new(vec![1, 2, 3]);
    let finisher = TestFinisher { inner: cursor, should_fail: true };

    let result = finisher.finish();
    assert!(result.is_err());

    let error = result.unwrap_err();
    assert_eq!(error.kind(), std::io::ErrorKind::Other);
    assert_eq!(error.to_string(), "Test failure");
}

#[test]
fn compressor_threads_beyond_thirty_two_bits_still_give_thirty_two() {
    let huge: u64 = (1u64 << 32) + 1;
    if let Ok(thread) = usize::try_from(huge) {
        assert_eq!(
            XzConfig::new(4, thread).build_compressor(),
            CompressorStage::XzParallel { level: 4, threads: 32 }
        );
    }
}
