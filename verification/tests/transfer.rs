use sftp_trust::error::{
    classify, failure_for, local_failure, remote_failure, Cause, FailureCode, TransferError,
};
use sftp_trust::progress::TransferProgress;
use sftp_trust::transfer::{
    TransferAction, TransferEvent, TransferManager, TransferStage, CHUNK_SIZE,
};

fn reading(done: usize, total: usize) -> TransferStage {
    TransferStage::Reading {
        progress: TransferProgress { bytes_transferred: done, total_bytes: total },
    }
}

#[test]
fn progress_counts_what_was_sent() {
    let mut p = TransferProgress::new(10);
    assert_eq!(p, TransferProgress { bytes_transferred: 0, total_bytes: 10 });
    assert!(!p.is_complete());
    p.update(4);
    assert_eq!(p.bytes_transferred, 4);
    assert_eq!(p.total_bytes, 10);
    assert_eq!(p.percent(), 40);
    p.update(0);
    assert_eq!(p.bytes_transferred, 4);
    p.update(6);
    assert_eq!(p.bytes_transferred, 10);
    assert!(p.is_complete());
    assert_eq!(p.percent(), 100);
}

#[test]
fn percent_of_nothing_is_nothing() {
    let mut p = TransferProgress::new(0);
    assert_eq!(p.percent(), 0);
    assert!(p.is_complete());
    p.update(5);
    assert_eq!(p.percent(), 0);
}

#[test]
fn percent_is_rounded_down_and_does_not_overflow() {
    assert_eq!(TransferProgress { bytes_transferred: 1, total_bytes: 3 }.percent(), 33);
    assert_eq!(TransferProgress { bytes_transferred: 2, total_bytes: 3 }.percent(), 66);
    assert_eq!(TransferProgress { bytes_transferred: 3, total_bytes: 2 }.percent(), 150);
    let all = TransferProgress { bytes_transferred: usize::MAX, total_bytes: usize::MAX };
    assert_eq!(all.percent(), 100);
    let much = TransferProgress { bytes_transferred: usize::MAX, total_bytes: 1 };
    assert_eq!(much.percent(), usize::MAX as u128 * 100);
}

#[test]
fn percentage_as_a_float_agrees_at_the_ends() {
    let percentage = |p: &TransferProgress| -> f64 {
        if p.total_bytes == 0 {
            0.0
        } else {
            (p.bytes_transferred as f64 / p.total_bytes as f64) * 100.0
        }
    };
    assert_eq!(percentage(&TransferProgress::new(0)), 0.0);
    let mut p = TransferProgress::new(7);
    p.update(7);
    assert_eq!(percentage(&p), 100.0);
    assert_eq!(p.percent(), 100);
}

#[test]
fn a_transfer_checks_the_source_first() {
    let r = TransferManager::step("src", TransferStage::Start, TransferEvent::Begin);
    let (stage, action) = r.unwrap();
    assert_eq!(stage, TransferStage::Checking);
    assert!(matches!(action, TransferAction::CheckSource));
}

#[test]
fn a_missing_source_fails_before_anything_is_opened() {
    let r = TransferManager::step("no/such/file", TransferStage::Checking, TransferEvent::SourceMissing);
    let (stage, action) = r.unwrap();
    assert_eq!(stage, TransferStage::Failed);
    match action {
        TransferAction::Fail { error: TransferError::FileNotFound(p) } => {
            assert_eq!(p, "no/such/file")
        }
        _ => panic!("unexpected action"),
    }
}

#[test]
fn chunks_are_read_and_written_in_turn() {
    let found = TransferEvent::SourceFound { size: 5 };
    let (stage, action) = TransferManager::step("s", TransferStage::Checking, found).unwrap();
    assert_eq!(stage, TransferStage::Opening { progress: TransferProgress::new(5) });
    assert!(matches!(action, TransferAction::Open));
    let (stage, action) = TransferManager::step("s", stage, TransferEvent::Opened).unwrap();
    assert_eq!(stage, reading(0, 5));
    assert!(matches!(action, TransferAction::Read { max: 65536 }));
    assert_eq!(CHUNK_SIZE, 64 * 1024);
    let read = TransferEvent::ChunkRead { data: vec![1, 2, 3] };
    let (stage, action) = TransferManager::step("s", stage, read).unwrap();
    assert_eq!(stage, TransferStage::Writing { progress: TransferProgress::new(5), len: 3 });
    match action {
        TransferAction::Write { data } => assert_eq!(data, vec![1, 2, 3]),
        _ => panic!("unexpected action"),
    }
    let (stage, action) = TransferManager::step("s", stage, TransferEvent::ChunkWritten).unwrap();
    assert_eq!(stage, reading(3, 5));
    assert!(matches!(action, TransferAction::Read { max: 65536 }));
    let read = TransferEvent::ChunkRead { data: vec![4, 5] };
    let (stage, _) = TransferManager::step("s", stage, read).unwrap();
    let (stage, _) = TransferManager::step("s", stage, TransferEvent::ChunkWritten).unwrap();
    assert_eq!(stage, reading(5, 5));
    let end = TransferEvent::ChunkRead { data: Vec::new() };
    let (stage, action) = TransferManager::step("s", stage, end).unwrap();
    let done = TransferProgress { bytes_transferred: 5, total_bytes: 5 };
    assert_eq!(stage, TransferStage::Done { progress: done });
    match action {
        TransferAction::Finish { progress } => assert_eq!(progress, done),
        _ => panic!("unexpected action"),
    }
}

#[test]
fn a_failure_ends_the_transfer_with_its_error() {
    for stage in [
        TransferStage::Start,
        TransferStage::Checking,
        TransferStage::Opening { progress: TransferProgress::new(1) },
        reading(0, 1),
        TransferStage::Writing { progress: TransferProgress::new(1), len: 1 },
    ] {
        let error = TransferError::PermissionDenied("p".to_string());
        let stopped = TransferEvent::Stopped { error };
        let (next, action) = TransferManager::step("s", stage, stopped).unwrap();
        assert_eq!(next, TransferStage::Failed);
        assert!(matches!(
            action,
            TransferAction::Fail { error: TransferError::PermissionDenied(_) }
        ));
    }
}

#[test]
fn nothing_follows_an_event_out_of_order() {
    let p = TransferProgress::new(1);
    assert!(TransferManager::step("s", TransferStage::Start, TransferEvent::Opened).is_none());
    assert!(TransferManager::step("s", TransferStage::Checking, TransferEvent::Begin).is_none());
    assert!(TransferManager::step("s", reading(0, 1), TransferEvent::ChunkWritten).is_none());
    let done = TransferStage::Done { progress: p };
    assert!(TransferManager::step("s", done, TransferEvent::Begin).is_none());
    let error = TransferError::FileNotFound("p".to_string());
    assert!(TransferManager::step("s", done, TransferEvent::Stopped { error }).is_none());
    let error = TransferError::FileNotFound("p".to_string());
    let failed = TransferStage::Failed;
    assert!(TransferManager::step("s", failed, TransferEvent::Stopped { error }).is_none());
    assert!(TransferManager::step("s", failed, TransferEvent::Begin).is_none());
}

#[test]
fn a_count_beyond_the_machine_word_is_refused() {
    let full = reading(usize::MAX, 0);
    let read = TransferEvent::ChunkRead { data: vec![1] };
    assert!(TransferManager::step("s", full, read).is_none());
    let writing = TransferStage::Writing {
        progress: TransferProgress { bytes_transferred: usize::MAX - 1, total_bytes: 0 },
        len: 2,
    };
    assert!(TransferManager::step("s", writing, TransferEvent::ChunkWritten).is_none());
}

fn cut(data: &[u8], len: usize) -> Vec<Vec<u8>> {
    data.chunks(len).map(|c| c.to_vec()).collect()
}

#[test]
fn a_whole_transfer_copies_every_byte() {
    for n in [0usize, 1, 5, 65535, 65536, 65537, 200_000] {
        let data: Vec<u8> = (0..n).map(|i| (i * 31 % 251) as u8).collect();
        let (up, progress) =
            TransferManager::run_in_memory("local", n, &cut(&data, CHUNK_SIZE)).unwrap();
        assert_eq!(progress, TransferProgress { bytes_transferred: n, total_bytes: n });
        assert!(progress.is_complete());
        let (down, _) = TransferManager::run_in_memory("remote", n, &cut(&up, 4096)).unwrap();
        assert_eq!(down, data);
    }
}

#[test]
fn what_is_written_does_not_depend_on_the_chunks() {
    let data: Vec<u8> = (0..1000usize).map(|i| (i % 256) as u8).collect();
    for len in [1usize, 2, 3, 7, 999, 1000, 1001] {
        let (written, progress) =
            TransferManager::run_in_memory("s", 1000, &cut(&data, len)).unwrap();
        assert_eq!(written, data);
        assert_eq!(progress.bytes_transferred, 1000);
    }
    let uneven = vec![vec![1u8], vec![2, 3, 4], vec![5, 6]];
    let (written, progress) = TransferManager::run_in_memory("s", 9, &uneven).unwrap();
    assert_eq!(written, vec![1, 2, 3, 4, 5, 6]);
    assert_eq!(progress, TransferProgress { bytes_transferred: 6, total_bytes: 9 });
    assert!(!progress.is_complete());
}

#[test]
fn an_empty_chunk_is_the_end_of_the_source() {
    let chunks = vec![vec![1u8, 2], Vec::new(), vec![3]];
    let (written, progress) = TransferManager::run_in_memory("s", 2, &chunks).unwrap();
    assert_eq!(written, vec![1, 2]);
    assert_eq!(progress, TransferProgress { bytes_transferred: 2, total_bytes: 2 });
    let (written, progress) = TransferManager::run_in_memory("s", 0, &Vec::new()).unwrap();
    assert!(written.is_empty());
    assert_eq!(progress, TransferProgress::new(0));
}

#[test]
fn listing_an_empty_directory_gives_nothing() {
    let r = TransferManager::list_files("/empty", Some(Vec::new()));
    assert_eq!(r.unwrap(), Vec::<String>::new());
}

#[test]
fn listing_a_missing_directory_is_not_found() {
    match TransferManager::list_files("/missing", None) {
        Err(TransferError::FileNotFound(p)) => assert_eq!(p, "/missing"),
        _ => panic!("unexpected result"),
    }
}

#[test]
fn listing_keeps_the_order_and_skips_the_nameless() {
    let entries = vec![
        Some("zeta".to_string()),
        None,
        Some("alpha".to_string()),
        Some("".to_string()),
        None,
        Some("mid".to_string()),
    ];
    let names = TransferManager::list_files("/d", Some(entries)).unwrap();
    assert_eq!(names, vec!["zeta", "alpha", "", "mid"]);
}

#[test]
fn codes_of_the_transport_are_told_apart() {
    assert_eq!(classify(FailureCode::Sftp(2)), Cause::Missing);
    assert_eq!(classify(FailureCode::Sftp(10)), Cause::Missing);
    assert_eq!(classify(FailureCode::Sftp(3)), Cause::Denied);
    assert_eq!(classify(FailureCode::Sftp(4)), Cause::Other);
    assert_eq!(classify(FailureCode::Sftp(0)), Cause::Other);
    assert_eq!(classify(FailureCode::Session(2)), Cause::Other);
    assert_eq!(classify(FailureCode::Session(3)), Cause::Other);
    assert_eq!(classify(FailureCode::Session(-16)), Cause::Other);
}

#[test]
fn the_codes_mean_what_the_transport_says_they_mean() {
    let said = |code: ssh2::ErrorCode| ssh2::Error::from_errno(code).message().to_string();
    assert_eq!(said(ssh2::ErrorCode::SFTP(sftp_trust::error::SFTP_NO_SUCH_FILE)), "no such file");
    assert_eq!(said(ssh2::ErrorCode::SFTP(sftp_trust::error::SFTP_NO_SUCH_PATH)), "no such path");
    assert_eq!(
        said(ssh2::ErrorCode::SFTP(sftp_trust::error::SFTP_PERMISSION_DENIED)),
        "permission denied"
    );
    assert_eq!(said(ssh2::ErrorCode::Session(sftp_trust::error::SESSION_FILE)), "file error");
}

#[test]
fn failures_name_the_path() {
    let io = || std::io::Error::new(std::io::ErrorKind::Other, "x");
    match failure_for(Cause::Missing, "/a", io()) {
        TransferError::FileNotFound(p) => assert_eq!(p, "/a"),
        _ => panic!("unexpected"),
    }
    match failure_for(Cause::Denied, "/b", io()) {
        TransferError::PermissionDenied(p) => assert_eq!(p, "/b"),
        _ => panic!("unexpected"),
    }
    match failure_for(Cause::Other, "/c", std::io::Error::new(std::io::ErrorKind::TimedOut, "t")) {
        TransferError::Io(e) => assert_eq!(e.kind(), std::io::ErrorKind::TimedOut),
        _ => panic!("unexpected"),
    }
}

#[test]
fn remote_failures_are_classified_by_their_code() {
    let missing = ssh2::Error::from_errno(ssh2::ErrorCode::SFTP(2));
    match remote_failure(missing, "/r") {
        TransferError::FileNotFound(p) => assert_eq!(p, "/r"),
        _ => panic!("unexpected"),
    }
    let no_path = ssh2::Error::from_errno(ssh2::ErrorCode::SFTP(10));
    assert!(matches!(remote_failure(no_path, "/r"), TransferError::FileNotFound(_)));
    let denied = ssh2::Error::from_errno(ssh2::ErrorCode::SFTP(3));
    match remote_failure(denied, "/r") {
        TransferError::PermissionDenied(p) => assert_eq!(p, "/r"),
        _ => panic!("unexpected"),
    }
    let session = ssh2::Error::from_errno(ssh2::ErrorCode::Session(2));
    assert!(matches!(remote_failure(session, "/r"), TransferError::Io(_)));
    let timeout = ssh2::Error::from_errno(ssh2::ErrorCode::Session(-9));
    match remote_failure(timeout, "/r") {
        TransferError::Io(e) => assert_eq!(e.kind(), std::io::ErrorKind::TimedOut),
        _ => panic!("unexpected"),
    }
}

#[test]
fn local_failures_are_classified_by_their_kind() {
    let missing = std::io::Error::new(std::io::ErrorKind::NotFound, "gone");
    match local_failure(missing, "/l") {
        TransferError::FileNotFound(p) => assert_eq!(p, "/l"),
        _ => panic!("unexpected"),
    }
    let denied = std::io::Error::new(std::io::ErrorKind::PermissionDenied, "no");
    match local_failure(denied, "/l") {
        TransferError::PermissionDenied(p) => assert_eq!(p, "/l"),
        _ => panic!("unexpected"),
    }
    let other = std::io::Error::new(std::io::ErrorKind::UnexpectedEof, "eof");
    match local_failure(other, "/l") {
        TransferError::Io(e) => assert_eq!(e.kind(), std::io::ErrorKind::UnexpectedEof),
        _ => panic!("unexpected"),
    }
}
