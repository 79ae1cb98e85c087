use mxu_lib::download::{
    cancel_download, check_http_status, temp_download_path, ChunkBuffer, DownloadControl,
    ProgressTracker, FLUSH_THRESHOLD,
};
use mxu_lib::errors::MaaError;

/// Cancellation is epoch-scoped: after session two starts, a cancel aimed at
/// session one (issued while it ran) does not pre-cancel session two; a
/// cancel issued now reaches session two; session one is stale either way.
#[test]
fn cancellation_is_epoch_scoped() {
    let mut ctl = DownloadControl::new();
    let s1 = ctl.start_session();
    assert_eq!(s1, 1);
    assert!(!ctl.should_abort(s1));
    ctl.cancel(); // aimed at session one
    assert!(ctl.should_abort(s1));

    let s2 = ctl.start_session(); // session two becomes current
    assert_eq!(s2, 2);
    assert!(!ctl.should_abort(s2)); // not pre-cancelled by stale state
    assert!(ctl.should_abort(s1)); // the old session stays invalid

    ctl.cancel();
    assert!(ctl.should_abort(s2)); // session two remains independently cancellable
}

#[test]
fn cancel_names_the_staging_file() {
    let mut ctl = DownloadControl::new();
    let _ = ctl.start_session();
    let temp = cancel_download(&mut ctl, &b"/data/pkg.zip".to_vec());
    assert!(ctl.cancel_requested);
    assert_eq!(temp, b"/data/pkg.zip.downloading".to_vec());
}

#[test]
fn temp_path_appends_staging_suffix() {
    assert_eq!(
        temp_download_path(&b"out.bin".to_vec()),
        b"out.bin.downloading".to_vec()
    );
}

/// A ten-megabyte stream through the 256 KiB buffering path: everything the
/// buffer flushes, followed by the final remainder, is byte-identical to
/// the source stream.
#[test]
fn ten_megabyte_stream_is_preserved() {
    let total: usize = 10 * 1024 * 1024;
    let chunk_size: usize = 8192;
    let mut source: Vec<u8> = Vec::with_capacity(total);
    let mut written: Vec<u8> = Vec::with_capacity(total);
    let mut buffer = ChunkBuffer::new();
    let mut produced: usize = 0;
    let mut flushes = 0;
    while produced < total {
        let n = chunk_size.min(total - produced);
        let mut chunk = Vec::with_capacity(n);
        for k in 0..n {
            chunk.push(((produced + k) % 251) as u8);
        }
        source.extend_from_slice(&chunk);
        produced += n;
        if let Some(flushed) = buffer.push_chunk(&chunk) {
            assert!(flushed.len() >= FLUSH_THRESHOLD);
            written.extend_from_slice(&flushed);
            flushes += 1;
        }
    }
    let rest = buffer.finish();
    written.extend_from_slice(&rest);
    assert!(flushes > 1);
    assert_eq!(written.len(), source.len());
    assert_eq!(written, source);
}

#[test]
fn buffer_flushes_only_at_threshold() {
    let mut buffer = ChunkBuffer::new();
    let small = vec![7u8; 100];
    assert!(buffer.push_chunk(&small).is_none());
    let big = vec![9u8; FLUSH_THRESHOLD];
    let flushed = buffer.push_chunk(&big).expect("threshold reached");
    assert_eq!(flushed.len(), 100 + FLUSH_THRESHOLD);
    assert_eq!(&flushed[..100], &small[..]);
    assert!(buffer.finish().is_empty());
}

#[test]
fn progress_reports_are_throttled_and_exact() {
    let mut t = ProgressTracker::new(3, 1000, 0);
    // 40 ms in: too early for a report.
    assert!(t.note_chunk(100, 40).is_none());
    // 120 ms in: a report, rate over the whole interval, whole percent.
    let ev = t.note_chunk(150, 120).expect("interval elapsed");
    assert_eq!(ev.session_id, 3);
    assert_eq!(ev.downloaded_size, 250);
    assert_eq!(ev.total_size, 1000);
    assert_eq!(ev.speed, 250 * 1000 / 120);
    assert_eq!(ev.progress, 25);
    // The next interval starts at 120.
    assert!(t.note_chunk(10, 190).is_none());
    let ev2 = t.note_chunk(40, 240).expect("second interval");
    assert_eq!(ev2.downloaded_size, 300);
    assert_eq!(ev2.speed, 50 * 1000 / 120);
    assert_eq!(ev2.progress, 30);
}

#[test]
fn progress_unknown_total_reports_zero_percent() {
    let mut t = ProgressTracker::new(1, 0, 0);
    let ev = t.note_chunk(500, 100).expect("interval elapsed");
    assert_eq!(ev.progress, 0);
    assert_eq!(ev.total_size, 0);
    let done = t.final_event();
    assert_eq!(done.total_size, 500); // byte count stands in for the unknown total
    assert_eq!(done.progress, 100);
    assert_eq!(done.speed, 0);
}

#[test]
fn final_event_with_known_total() {
    let mut t = ProgressTracker::new(9, 2048, 0);
    let _ = t.note_chunk(2048, 5);
    let done = t.final_event();
    assert_eq!(done.session_id, 9);
    assert_eq!(done.downloaded_size, 2048);
    assert_eq!(done.total_size, 2048);
    assert_eq!(done.progress, 100);
}

/// Any non-2xx status is a terminal error; the whole success class passes.
#[test]
fn non_success_statuses_are_terminal() {
    assert_eq!(check_http_status(200), Ok(()));
    assert_eq!(check_http_status(204), Ok(()));
    assert_eq!(check_http_status(299), Ok(()));
    assert_eq!(check_http_status(199), Err(MaaError::IOFailure));
    assert_eq!(check_http_status(301), Err(MaaError::IOFailure));
    assert_eq!(check_http_status(404), Err(MaaError::IOFailure));
    assert_eq!(check_http_status(500), Err(MaaError::IOFailure));
}
