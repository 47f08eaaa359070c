use kcpilot::snapshot::{validate_archive_path, Severity, SnapshotError, SnapshotManager, SNAPSHOT_VERSION};

#[test]
fn archive_names_must_stay_inside() {
    assert_eq!(validate_archive_path("reports/summary.html"), Ok(()));
    assert_eq!(validate_archive_path("../etc/passwd"), Err(SnapshotError::InvalidFormat));
    assert_eq!(validate_archive_path("/etc/passwd"), Err(SnapshotError::InvalidFormat));
    assert_eq!(validate_archive_path("\\windows"), Err(SnapshotError::InvalidFormat));
    assert_eq!(validate_archive_path("C:report"), Err(SnapshotError::InvalidFormat));
    assert_eq!(validate_archive_path("   "), Err(SnapshotError::InvalidFormat));
    assert_eq!(validate_archive_path(""), Err(SnapshotError::InvalidFormat));
}

#[test]
fn version_must_match() {
    let m = SnapshotManager::new();
    assert_eq!(SNAPSHOT_VERSION, "1.0.0");
    assert_eq!(m.check_version("1.0.0"), Ok(()));
    assert_eq!(
        m.check_version("0.9.0"),
        Err(SnapshotError::VersionMismatch { expected: "1.0.0".to_string(), actual: "0.9.0".to_string() })
    );
}

#[test]
fn gzip_magic_is_recognised() {
    let m = SnapshotManager::new();
    assert!(m.compression());
    assert!(!m.with_compression(false).compression());
    let m = SnapshotManager::new();
    assert!(m.is_compressed(&[0x1f, 0x8b, 0x08]));
    assert!(!m.is_compressed(&[0x1f]));
    assert!(!m.is_compressed(b"{\"version\":\"1.0.0\"}"));
}

#[test]
fn stored_snapshot_reads_back() {
    let json = b"{\"version\":\"1.0.0\",\"findings\":[]}".to_vec();
    let compressing = SnapshotManager::new();
    let stored = compressing.encode(&json).unwrap();
    assert_ne!(stored, json);
    assert_eq!(&stored[..2], &[0x1f, 0x8b]);
    assert_eq!(compressing.decode(&stored).unwrap(), json);
    let plain = SnapshotManager::new().with_compression(false);
    let stored = plain.encode(&json).unwrap();
    assert_eq!(stored, json);
    assert_eq!(plain.decode(&stored).unwrap(), json);
    // Either manager reads what the other stored.
    assert_eq!(plain.decode(&compressing.encode(&json).unwrap()).unwrap(), json);
}

#[test]
fn broken_gzip_is_an_io_error() {
    let m = SnapshotManager::new();
    match m.decode(&[0x1f, 0x8b, 0x00, 0x01]) {
        Err(SnapshotError::IoError(_)) => {},
        other => panic!("expected an I/O error, got {:?}", other),
    }
}

#[test]
fn severities_rank_most_serious_first() {
    assert_eq!(Severity::Critical.rank(), 0);
    assert_eq!(Severity::Info.rank(), 4);
    assert!(Severity::Critical < Severity::High);
}
