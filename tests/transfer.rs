use music_manager::checksum::{checksum_of_bytes, hex_string, Checksummer};
use music_manager::paths::{join_path, relative_path, PathStyle};
use music_manager::session::{
    stage_progress, CopySummary, DirectCopy, TransferAction, TransferEvent, TransferOptions, TransferPhase,
    TransferSession, TransferStage,
};
use music_manager::text::decimal_string;
use music_manager::transfer::{
    build_manifest, verify_against_manifest, ScannedFile, TargetFile, TransferManifest,
};

fn scanned(path: &str, content: &[u8]) -> ScannedFile {
    ScannedFile {
        path: path.to_string(),
        checksum: Some(checksum_of_bytes(content)),
        size: Some(content.len() as u64),
    }
}

fn faithful(m: &TransferManifest) -> Vec<TargetFile> {
    m.checksums
        .iter()
        .map(|c| TargetFile::Present { checksum: c.checksum.clone(), size: Some(1) })
        .collect()
}

fn sample_tree() -> Vec<ScannedFile> {
    vec![scanned("/data/src/a.txt", b"hello"), scanned("/data/src/sub/b.txt", b"0123456789")]
}

#[test]
fn sha256_of_known_inputs() {
    assert_eq!(
        checksum_of_bytes(b""),
        "e3b0c44298fc1c149afbf4c8996fb92427ae41e4649b934ca495991b7852b855"
    );
    assert_eq!(
        checksum_of_bytes(b"abc"),
        "ba7816bf8f01cfea414140de5dae2223b00361a396177a9cb410ff61f20015ad"
    );
}

#[test]
fn streaming_checksum_matches_one_piece() {
    let data: Vec<u8> = (0..20000u32).map(|i| (i % 251) as u8).collect();
    let mut c = Checksummer::new();
    for chunk in data.chunks(8192) {
        c.update(chunk);
    }
    let streamed = c.finish();
    assert_eq!(streamed, checksum_of_bytes(&data));
    assert_eq!(streamed.len(), 64);
}

#[test]
fn hex_digits_are_lowercase_pairs() {
    assert_eq!(hex_string(&[0x00, 0xff, 0x1a, 0xb0]), "00ff1ab0");
    assert_eq!(hex_string(&[]), "");
}

#[test]
fn decimal_rendering() {
    assert_eq!(decimal_string(0), "0");
    assert_eq!(decimal_string(7), "7");
    assert_eq!(decimal_string(1234567890), "1234567890");
    assert_eq!(decimal_string(u64::MAX), "18446744073709551615");
}

#[test]
fn relative_paths_use_forward_slashes() {
    assert_eq!(relative_path(PathStyle::Unix, "/data/src", "/data/src/a.txt").as_deref(), Some("a.txt"));
    assert_eq!(relative_path(PathStyle::Unix, "/data/src/", "/data/src/sub/b.txt").as_deref(), Some("sub/b.txt"));
    assert_eq!(
        relative_path(PathStyle::Windows, "C:\\music", "C:\\music\\sub\\b.txt").as_deref(),
        Some("sub/b.txt")
    );
    assert_eq!(relative_path(PathStyle::Unix, "/m", "/m/a\\b").as_deref(), Some("a\\b"));
    assert_eq!(relative_path(PathStyle::Windows, "/m", "/m/a\\b").as_deref(), Some("a/b"));
    assert_eq!(relative_path(PathStyle::Unix, "/data/src", "/data/srcx/a.txt"), None);
    assert_eq!(relative_path(PathStyle::Unix, "/data/src", "/other/a.txt"), None);
    assert_eq!(relative_path(PathStyle::Unix, "/", "/a.txt").as_deref(), Some("a.txt"));
}

#[test]
fn joined_paths_round_trip() {
    assert_eq!(join_path(PathStyle::Unix, "/target", "sub/b.txt"), "/target/sub/b.txt");
    assert_eq!(join_path(PathStyle::Unix, "/target//", "a.txt"), "/target/a.txt");
    let joined = join_path(PathStyle::Unix, "/target", "sub/b.txt");
    assert_eq!(relative_path(PathStyle::Unix, "/target", &joined).as_deref(), Some("sub/b.txt"));
}

#[test]
fn manifest_of_sample_tree() {
    let m = build_manifest(PathStyle::Unix, "/data/src", &sample_tree());
    assert_eq!(m.file_count, 2);
    assert_eq!(m.total_size, 15);
    assert_eq!(m.checksums.len(), 2);
    assert_eq!(m.checksums[0].path, "a.txt");
    assert_eq!(m.checksums[1].path, "sub/b.txt");
    assert_eq!(m.checksums[0].checksum, checksum_of_bytes(b"hello"));
}

#[test]
fn manifest_counts_every_readable_file() {
    let files = vec![
        scanned("/r/x", b"1"),
        scanned("/r/d/y", b"22"),
        scanned("/r/d/e/z", b"333"),
        scanned("/r/w", b""),
    ];
    let m = build_manifest(PathStyle::Unix, "/r", &files);
    assert_eq!(m.file_count, 4);
    assert_eq!(m.total_size, 6);
}

#[test]
fn manifest_skips_files_that_could_not_be_read() {
    let mut files = sample_tree();
    files.push(ScannedFile { path: "/data/src/c.txt".to_string(), checksum: None, size: Some(3) });
    files.push(ScannedFile {
        path: "/data/src/d.txt".to_string(),
        checksum: Some(checksum_of_bytes(b"d")),
        size: None,
    });
    files.push(ScannedFile {
        path: "/data/src/e.txt".to_string(),
        checksum: Some("not a digest".to_string()),
        size: Some(4),
    });
    let m = build_manifest(PathStyle::Unix, "/data/src", &files);
    assert_eq!(m.file_count, 2);
    assert_eq!(m.total_size, 15);
}

#[test]
fn manifest_of_empty_tree() {
    let m = build_manifest(PathStyle::Unix, "/empty", &Vec::new());
    assert_eq!(m.file_count, 0);
    assert_eq!(m.total_size, 0);
    assert!(m.checksums.is_empty());
}

#[test]
fn manifest_twice_gives_same_entries() {
    let first = build_manifest(PathStyle::Unix, "/data/src", &sample_tree());
    let second = build_manifest(PathStyle::Unix, "/data/src", &sample_tree());
    assert_eq!(first, second);
    let mut reversed = sample_tree();
    reversed.reverse();
    let third = build_manifest(PathStyle::Unix, "/data/src", &reversed);
    let mut a: Vec<_> = first.checksums.iter().map(|c| (c.path.clone(), c.checksum.clone())).collect();
    let mut b: Vec<_> = third.checksums.iter().map(|c| (c.path.clone(), c.checksum.clone())).collect();
    a.sort();
    b.sort();
    assert_eq!(a, b);
}

#[test]
fn manifest_survives_move_to_other_root() {
    let source = build_manifest(PathStyle::Unix, "/data/src", &sample_tree());
    let moved: Vec<ScannedFile> = vec![
        scanned(&join_path(PathStyle::Unix, "/mnt/dst", "a.txt"), b"hello"),
        scanned(&join_path(PathStyle::Unix, "/mnt/dst", "sub/b.txt"), b"0123456789"),
    ];
    let target = build_manifest(PathStyle::Unix, "/mnt/dst", &moved);
    assert_eq!(source, target);
}

#[test]
fn faithful_copy_verifies() {
    let m = build_manifest(PathStyle::Unix, "/data/src", &sample_tree());
    let r = verify_against_manifest(&m, &faithful(&m)).unwrap();
    assert!(r.success);
    assert_eq!(r.transferred_files, m.file_count);
    assert_eq!(r.total_size, 2);
    assert_eq!(r.message, "Successfully verified 2 files");
}

#[test]
fn one_changed_file_is_one_mismatch() {
    let m = build_manifest(PathStyle::Unix, "/data/src", &sample_tree());
    let mut found = faithful(&m);
    found[1] = TargetFile::Present { checksum: checksum_of_bytes(b"0123456788"), size: Some(10) };
    let r = verify_against_manifest(&m, &found).unwrap();
    assert!(!r.success);
    assert_eq!(r.message, "Transfer verification failed:\nChecksum mismatch for: sub/b.txt");
    assert_eq!(r.transferred_files, 1);
}

#[test]
fn one_deleted_file_is_one_missing() {
    let m = build_manifest(PathStyle::Unix, "/data/src", &sample_tree());
    let mut found = faithful(&m);
    found[0] = TargetFile::Missing;
    let r = verify_against_manifest(&m, &found).unwrap();
    assert!(!r.success);
    assert_eq!(r.message, "Transfer verification failed:\nMissing file: a.txt");
    assert_eq!(r.transferred_files, 1);
}

#[test]
fn every_discrepancy_is_listed() {
    let m = build_manifest(PathStyle::Unix, "/data/src", &sample_tree());
    let found = vec![TargetFile::Missing, TargetFile::Present { checksum: "x".to_string(), size: Some(1) }];
    let r = verify_against_manifest(&m, &found).unwrap();
    assert_eq!(
        r.message,
        "Transfer verification failed:\nMissing file: a.txt\nChecksum mismatch for: sub/b.txt"
    );
    assert_eq!(r.transferred_files, 0);
    assert_eq!(r.total_size, 0);
}

#[test]
fn unreadable_target_file_is_an_error() {
    let m = build_manifest(PathStyle::Unix, "/data/src", &sample_tree());
    let found = vec![
        TargetFile::Missing,
        TargetFile::Unreadable { reason: "permission denied".to_string() },
    ];
    let r = verify_against_manifest(&m, &found);
    assert_eq!(r, Err("Failed to calculate checksum: permission denied".to_string()));
}

#[test]
fn direct_copy_of_nothing_fails() {
    let d = DirectCopy::new(0, 0);
    assert_eq!(d.finish(), Err("No files were copied".to_string()));
}

#[test]
fn direct_copy_counts_only_copied_files() {
    let mut d = DirectCopy::new(3, 30);
    let p = d.progress("a.txt");
    assert_eq!(p.status, "Copying files...");
    assert_eq!(p.current_file.as_deref(), Some("a.txt"));
    assert_eq!(p.processed_files, 0);
    assert!(d.can_count(Some(10)));
    d.record(Some(10));
    d.record(None);
    assert_eq!(d.failed_files, 1);
    let p = d.progress("c.txt");
    assert_eq!(p.processed_files, 1);
    assert_eq!(p.processed_size, 10);
    assert_eq!(p.total_files, 3);
    assert_eq!(p.total_size, 30);
    assert_eq!(d.finish(), Ok(CopySummary { copied_files: 1, copied_size: 10, failed_files: 1 }));
    let full = DirectCopy { copied_files: 1, copied_size: u64::MAX - 1, failed_files: 0, total_files: 0, total_size: 0 };
    assert!(!full.can_count(Some(2)));
    assert!(full.can_count(Some(1)));
}

#[test]
fn milestone_fractions() {
    let p = stage_progress(TransferStage::TransferringArchive, 5, 101);
    assert_eq!((p.processed_files, p.processed_size), (2, 50));
    let p = stage_progress(TransferStage::ExtractingArchive, 10, 100);
    assert_eq!((p.processed_files, p.processed_size), (7, 75));
    assert_eq!(p.status, "Extracting archive...");
    let p = stage_progress(TransferStage::ExtractingArchive, usize::MAX, u64::MAX);
    assert_eq!(p.processed_size, ((u64::MAX as u128) * 3 / 4) as u64);
    let p = stage_progress(TransferStage::CalculatingChecksums, 9, 9);
    assert_eq!((p.total_files, p.total_size, p.processed_files), (0, 0, 0));
    let p = stage_progress(TransferStage::Complete, 4, 40);
    assert_eq!((p.processed_files, p.processed_size), (4, 40));
    assert_eq!(p.status, "Transfer complete");
}

fn options(create_archive: bool, verify_transfer: bool) -> TransferOptions {
    TransferOptions {
        source_path: "/data/src".to_string(),
        target_path: "/mnt/dst".to_string(),
        create_archive,
        verify_transfer,
    }
}

#[test]
fn sample_transfer_by_copy_with_verification() {
    let mut s = TransferSession::new(&options(false, true));
    let (p, a) = s.step(TransferEvent::Started);
    assert_eq!(p.unwrap().status, "Calculating checksums...");
    assert_eq!(a, TransferAction::CaptureManifest);
    let m = build_manifest(PathStyle::Unix, "/data/src", &sample_tree());
    assert_eq!((m.file_count, m.total_size), (2, 15));
    let (p, a) = s.step(TransferEvent::ManifestCaptured(Ok(m.clone())));
    assert!(p.is_none());
    assert_eq!(a, TransferAction::CopyFiles);
    let copied = CopySummary { copied_files: 2, copied_size: 15, failed_files: 0 };
    let (p, a) = s.step(TransferEvent::FilesCopied(Ok(copied)));
    let p = p.unwrap();
    assert_eq!((p.status.as_str(), p.processed_files, p.total_size), ("Transfer complete", 2, 15));
    assert_eq!(a, TransferAction::Verify);
    let found = vec![
        TargetFile::Present { checksum: checksum_of_bytes(b"hello"), size: Some(5) },
        TargetFile::Present { checksum: checksum_of_bytes(b"0123456789"), size: Some(10) },
    ];
    let v = verify_against_manifest(&m, &found);
    let (_, a) = s.step(TransferEvent::Verified(v));
    match a {
        TransferAction::Finish(Ok(r)) => {
            assert!(r.success);
            assert_eq!(r.transferred_files, 2);
            assert_eq!(r.total_size, 15);
        }
        other => panic!("unexpected action {:?}", other),
    }
    assert_eq!(s.phase, TransferPhase::Done);
}

#[test]
fn archive_transfer_milestones() {
    let mut s = TransferSession::new(&options(true, false));
    let (p, a) = s.step(TransferEvent::Started);
    assert_eq!(p.unwrap().status, "Creating archive...");
    assert_eq!(a, TransferAction::CreateArchive);
    let (p, a) = s.step(TransferEvent::ArchiveCreated(Ok(())));
    assert_eq!(p.unwrap().status, "Transferring archive...");
    assert_eq!(a, TransferAction::CopyArchive);
    let (p, a) = s.step(TransferEvent::ArchiveCopied(Ok(())));
    assert_eq!(p.unwrap().status, "Extracting archive...");
    assert_eq!(a, TransferAction::ExtractArchive);
    let (p, a) = s.step(TransferEvent::ArchiveExtracted(Ok(())));
    assert_eq!(p.unwrap().status, "Transfer complete");
    match a {
        TransferAction::Finish(Ok(r)) => {
            assert!(r.success);
            assert_eq!(r.message, "Transfer completed successfully");
            assert_eq!((r.transferred_files, r.total_size), (0, 0));
        }
        other => panic!("unexpected action {:?}", other),
    }
}

#[test]
fn archive_failure_stops_transfer() {
    let mut s = TransferSession::new(&options(true, true));
    s.step(TransferEvent::Started);
    let m = build_manifest(PathStyle::Unix, "/data/src", &sample_tree());
    s.step(TransferEvent::ManifestCaptured(Ok(m)));
    assert!(s.expects(&TransferEvent::ArchiveCreated(Ok(()))));
    assert!(!s.expects(&TransferEvent::FilesCopied(Err("x".to_string()))));
    let (p, a) = s.step(TransferEvent::ArchiveCreated(Err("disk full".to_string())));
    assert!(p.is_none());
    assert_eq!(a, TransferAction::Finish(Err("Failed to create archive: disk full".to_string())));
    let mut s = TransferSession::new(&options(true, false));
    s.step(TransferEvent::Started);
    s.step(TransferEvent::ArchiveCreated(Ok(())));
    let (_, a) = s.step(TransferEvent::ArchiveCopied(Err("denied".to_string())));
    assert_eq!(a, TransferAction::Finish(Err("Failed to transfer archive: denied".to_string())));
}

#[test]
fn empty_verification_reports_manifest_totals() {
    let mut s = TransferSession::new(&options(false, true));
    s.step(TransferEvent::Started);
    let mut m = build_manifest(PathStyle::Unix, "/data/src", &sample_tree());
    m.total_size = 15;
    s.step(TransferEvent::ManifestCaptured(Ok(m)));
    s.step(TransferEvent::FilesCopied(Ok(CopySummary { copied_files: 2, copied_size: 15, failed_files: 0 })));
    let v = music_manager::transfer::TransferResult {
        success: true,
        message: "Successfully verified 0 files".to_string(),
        transferred_files: 0,
        total_size: 0,
    };
    let (_, a) = s.step(TransferEvent::Verified(Ok(v)));
    match a {
        TransferAction::Finish(Ok(r)) => assert_eq!((r.transferred_files, r.total_size), (2, 15)),
        other => panic!("unexpected action {:?}", other),
    }
}

#[test]
fn copy_failure_is_reported_as_given() {
    let mut s = TransferSession::new(&options(false, false));
    let (p, a) = s.step(TransferEvent::Started);
    assert!(p.is_none());
    assert_eq!(a, TransferAction::CopyFiles);
    let (_, a) = s.step(TransferEvent::FilesCopied(Err("No files were copied".to_string())));
    assert_eq!(a, TransferAction::Finish(Err("No files were copied".to_string())));
}

#[test]
fn copy_without_verification_reports_copied_counts() {
    let mut s = TransferSession::new(&options(false, false));
    s.step(TransferEvent::Started);
    let copied = CopySummary { copied_files: 3, copied_size: 42, failed_files: 1 };
    let (p, a) = s.step(TransferEvent::FilesCopied(Ok(copied)));
    assert_eq!(p.unwrap().status, "Transfer complete");
    match a {
        TransferAction::Finish(Ok(r)) => {
            assert!(r.success);
            assert_eq!(r.message, "Transfer completed successfully");
            assert_eq!((r.transferred_files, r.total_size), (3, 42));
        }
        other => panic!("unexpected action {:?}", other),
    }
}

#[test]
fn unix_backslash_names_stay_distinct() {
    let files = vec![scanned("/s/a\\b", b"one"), scanned("/s/a/b", b"two")];
    let m = build_manifest(PathStyle::Unix, "/s", &files);
    assert_eq!(m.checksums[0].path, "a\\b");
    assert_eq!(m.checksums[1].path, "a/b");
    let w = build_manifest(PathStyle::Windows, "C:\\s", &vec![scanned("C:\\s\\a\\b", b"one")]);
    assert_eq!(w.checksums[0].path, "a/b");
    assert_eq!(join_path(PathStyle::Unix, "/t", "a\\b"), "/t/a\\b");
    assert_eq!(join_path(PathStyle::Windows, "C:\\t\\", "a/b"), "C:\\t/a/b");
}
