use k_backup::archive::{ArchiveEntry, ArchiveSource, Base64Source, SqliteDBSource};
use k_backup::arcvec::ArcVec;
use k_backup::error::{Error, ErrorInternal};

#[test]
fn test_base64_source_creation() {
    let content = vec![1, 2, 3, 4, 5];
    let source = Base64Source::new(content.clone(), "test.txt".to_string());

    assert_eq!(source.content.as_ref(), content);
    assert_eq!(source.dst, "test.txt");
}

#[test]
fn test_base64_source_iterator() {
    let original_content = "Hello, World!";

    let source = Base64Source::new(original_content.as_bytes().to_vec(), "hello.txt".to_string());

    let mut iterator = source.archive_entry_iterator().into_iter();
    let entry_result = iterator.next().unwrap();
    let entry = entry_result.unwrap();

    if let ArchiveSource::Reader(ref bytes) = entry.src {
        let content = String::from_utf8(bytes.clone()).unwrap();
        assert_eq!(content, original_content);
    } else {
        panic!("Expected reader source");
    }

    assert_eq!(entry.dst, "hello.txt");
    assert!(iterator.next().is_none());
}

#[test]
fn test_archive_entry_new_reader() {
    let data = b"test data";
    let dst = "backup/file.txt".to_string();

    let entry = ArchiveEntry::new_reader(data.to_vec(), dst.clone());
    assert!(matches!(entry.src, ArchiveSource::Reader(_)));
    assert_eq!(entry.dst, dst);
}

#[test]
fn archive_entry_new_path_keeps_both_paths() {
    let entry = ArchiveEntry::new_path("/data/a.txt".to_string(), "backup/a.txt".to_string());
    assert!(matches!(&entry.src, ArchiveSource::Path(p) if p == "/data/a.txt"));
    assert_eq!(entry.dst, "backup/a.txt");
}

#[test]
fn test_sqlite_db_source_creation() {
    let src = "/path/to/database.db".to_string();
    let dst = "backup/database.db".to_string();

    let source = SqliteDBSource::new(src.clone(), dst.clone());

    assert_eq!(source.src, src);
    assert_eq!(source.dst, dst);
}

#[test]
fn test_sqlite_db_source_debug() {
    let source = SqliteDBSource::new(
        "/path/to/database.db".to_string(),
        "backup/database.db".to_string(),
    );

    let debug_str = format!("{:?}", source);
    assert_eq!(
        debug_str,
        "SqliteDBSource { src: \"/path/to/database.db\", dst: \"backup/database.db\" }"
    );
}

#[test]
fn sqlite_source_yields_the_snapshot_as_its_one_entry() {
    let source = SqliteDBSource::new("/data/live.db".to_string(), "backup/test.db".to_string());
    let entries = source.archive_entry_iterator(Ok("/tmp/snapshot.db".to_string()));
    assert_eq!(entries.len(), 1);
    let entry = entries.into_iter().next().unwrap().unwrap();
    assert!(matches!(&entry.src, ArchiveSource::Path(p) if p == "/tmp/snapshot.db"));
    assert_eq!(entry.dst, "backup/test.db");
}

#[test]
fn sqlite_source_on_a_failed_snapshot_yields_one_error() {
    let source = SqliteDBSource::new("/data/invalid.db".to_string(), "backup/invalid.db".to_string());
    let failure = Error::new(ErrorInternal::Rusqlite("file is not a database".to_string()));
    let entries = source.archive_entry_iterator(Err(failure));
    assert_eq!(entries.len(), 1);
    let err = entries.into_iter().next().unwrap().unwrap_err();
    assert_eq!(
        err.to_string(),
        "archive_entry_iterator() failed:\n  file is not a database"
    );
}

#[test]
fn arcvec_holds_what_it_was_given() {
    let v = ArcVec::from(vec![1u8, 2, 3]);
    assert_eq!(v.length(), Some(3));
    assert_eq!(v.as_ref(), &[1u8, 2, 3]);
    let shared = v.clone();
    assert_eq!(shared.as_ref(), v.as_ref());
    let empty: ArcVec<u8> = ArcVec::default();
    assert_eq!(empty.length(), Some(0));
    assert!(empty.as_ref().is_empty());
}
