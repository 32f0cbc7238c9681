use alas_launcher::digest::{
    bytes_to_hex, check_digest, check_payload_digest, sha256_file, verify_launcher_update,
    verify_update_payload,
};
use alas_launcher::download::{
    after_verification, content_range_total_bytes, download_launcher_update,
    download_launcher_update_worker, finish_download,
    launcher_download_progress_detail, launcher_update_head_content_length, launcher_update_probe,
    launcher_update_range_probe, next_download_step, range_failure, range_header, worker_failure,
    DownloadEnd, DownloadStep, LauncherUpdateProbe, ParallelMonitor, RangeDownload, RangeStep,
    SequentialDownload, Transfer, WorkerNews, WorkerStep,
};
use alas_launcher::ranges::{
    launcher_update_chunk_size, launcher_update_next_range, launcher_update_parallel_threads,
    launcher_update_worker_count,
};
use alas_launcher::sizes::format_bytes;

const EMPTY_SHA256: &str = "e3b0c44298fc1c149afbf4c8996fb92427ae41e4649b934ca495991b7852b855";
const ABC_SHA256: &str = "ba7816bf8f01cfea414140de5dae2223b00361a396177a9cb410ff61f20015ad";

#[test]
fn the_probe_reads_sizes() {
    assert_eq!(launcher_update_head_content_length(Some(200), Some("42")), Some(42));
    assert_eq!(launcher_update_head_content_length(Some(204), Some("+42")), Some(42));
    assert_eq!(launcher_update_head_content_length(Some(404), Some("42")), None);
    assert_eq!(launcher_update_head_content_length(Some(200), Some("0")), None);
    assert_eq!(launcher_update_head_content_length(Some(200), Some(" 42")), None);
    assert_eq!(launcher_update_head_content_length(Some(200), None), None);
    assert_eq!(launcher_update_head_content_length(None, Some("42")), None);
    assert_eq!(content_range_total_bytes("bytes 0-0/1234"), Some(1234));
    assert_eq!(content_range_total_bytes("bytes 0-0/ 7 "), Some(7));
    assert_eq!(content_range_total_bytes("bytes 0-0/*"), None);
    assert_eq!(content_range_total_bytes("bytes 0-0"), None);
    assert_eq!(content_range_total_bytes("1/2/0"), None);
}

#[test]
fn the_probes_are_combined() {
    let range = launcher_update_range_probe(Some(206), Some("bytes 0-0/99"));
    assert_eq!(range, LauncherUpdateProbe { total_bytes: Some(99), supports_ranges: true });
    let whole = launcher_update_range_probe(Some(200), Some("bytes 0-0/99"));
    assert_eq!(whole, LauncherUpdateProbe { total_bytes: None, supports_ranges: false });
    assert!(!launcher_update_range_probe(None, None).supports_ranges);
    assert_eq!(launcher_update_probe(Some(5), range).total_bytes, Some(5));
    assert_eq!(launcher_update_probe(None, range).total_bytes, Some(99));
    assert!(launcher_update_probe(Some(5), range).supports_ranges);
}

#[test]
fn large_files_are_fetched_in_parallel_and_then_whole() {
    let probe = LauncherUpdateProbe { total_bytes: Some(4 * 1024 * 1024), supports_ranges: true };
    let DownloadStep::Fetch { transfer, remove_first } = download_launcher_update(probe) else {
        panic!("nothing is fetched");
    };
    assert_eq!(transfer, Transfer::Parallel { total_bytes: 4 * 1024 * 1024 });
    assert!(!remove_first);
    let DownloadStep::Fetch { transfer, remove_first } =
        next_download_step(transfer, Err("lost".to_owned()))
    else {
        panic!("not tried again");
    };
    assert_eq!(transfer, Transfer::Sequential { total_bytes: Some(4 * 1024 * 1024) });
    assert!(remove_first);
    assert!(matches!(next_download_step(transfer, Ok(9)), DownloadStep::Verify { downloaded: 9 }));
    let DownloadStep::Failed { error } = next_download_step(transfer, Err("lost".to_owned())) else {
        panic!("goes on");
    };
    assert_eq!(error, "lost");
}

#[test]
fn small_or_unknown_files_are_fetched_whole() {
    let small = LauncherUpdateProbe { total_bytes: Some(4 * 1024 * 1024 - 1), supports_ranges: true };
    assert!(matches!(
        download_launcher_update(small),
        DownloadStep::Fetch { transfer: Transfer::Sequential { total_bytes: Some(4194303) }, .. }
    ));
    let unknown = LauncherUpdateProbe { total_bytes: None, supports_ranges: true };
    assert!(matches!(
        download_launcher_update(unknown),
        DownloadStep::Fetch { transfer: Transfer::Sequential { total_bytes: None }, .. }
    ));
}

#[test]
fn ranges_share_out_a_file() {
    let total: u64 = 5_000_001;
    let workers = launcher_update_worker_count(total, 16);
    assert_eq!(workers, 16);
    let mut next: u64 = 0;
    let mut written: u64 = 0;
    while let Some((start, end)) = launcher_update_next_range(total, workers, next, written) {
        assert_eq!(start, next);
        assert!(end < total);
        written += end - start + 1;
        next = end + 1;
    }
    assert_eq!(written, total);
    assert_eq!(launcher_update_next_range(10, 4, 10, 0), None);
    assert_eq!(launcher_update_next_range(10, 4, 3, 0), Some((3, 9)));
}

#[test]
fn chunks_follow_what_is_left() {
    assert_eq!(launcher_update_chunk_size(100, 100, 0, 4), 1);
    assert_eq!(launcher_update_chunk_size(65536, 0, 0, 4), 65536);
    assert_eq!(launcher_update_chunk_size(1_000_000, 0, 0, 4), 125_000);
    assert_eq!(launcher_update_chunk_size(1_000_000_000, 0, 0, 4), 512_000);
    assert_eq!(launcher_update_chunk_size(1_000_000, 0, 999_999, 4), 65536);
    assert_eq!(launcher_update_chunk_size(1_000_000, 900_000, 0, 0), 100_000);
    assert_eq!(launcher_update_worker_count(0, 16), 1);
    assert_eq!(launcher_update_worker_count(65537, 16), 2);
    assert_eq!(launcher_update_parallel_threads(Some(12)), 24);
    assert_eq!(launcher_update_parallel_threads(Some(2)), 16);
    assert_eq!(launcher_update_parallel_threads(Some(500)), 128);
    assert_eq!(launcher_update_parallel_threads(None), 16);
}

#[test]
fn progress_is_reported() {
    let report = launcher_download_progress_detail(1536, Some(3072), 2048);
    assert_eq!(report.progress, 50);
    assert_eq!(report.detail.downloaded, "1.5 KiB");
    assert_eq!(report.detail.whole, Some(("3.0 KiB".to_owned(), "50".to_owned())));
    assert_eq!(report.detail.speed, "2.0 KiB");
    assert_eq!(launcher_download_progress_detail(9, Some(3), 0).progress, 100);
    let unknown = launcher_download_progress_detail(3 * 1024 * 1024, None, 0);
    assert_eq!(unknown.progress, 15);
    assert_eq!(unknown.detail.whole, None);
    assert_eq!(launcher_download_progress_detail(0, Some(0), 0).progress, 12);
    assert_eq!(launcher_download_progress_detail(500 * 1024 * 1024, None, 0).progress, 88);
}

#[test]
fn a_download_from_beginning_to_end_is_counted() {
    let mut download = SequentialDownload::new(None, Some(200));
    assert!(download.has_room(100));
    let report = download.on_chunk(100, 0, 10).unwrap();
    assert_eq!(report.progress, 50);
    assert!(download.on_chunk(1, 249, 10).is_none());
    assert!(download.on_chunk(1, 250, 10).is_some());
    assert_eq!(
        download.finish(),
        Err("launcher update download incomplete: expected 200 bytes, got 102 bytes".to_owned())
    );
    download.on_chunk(98, 0, 10);
    assert_eq!(download.finish(), Ok(200));
    let mut unknown = SequentialDownload::new(None, None);
    unknown.on_chunk(7, 0, 0);
    assert_eq!(unknown.finish(), Ok(7));
    assert_eq!(SequentialDownload::new(Some(3), Some(4)).total_bytes, Some(3));
    assert!(!SequentialDownload::new(Some(u64::MAX), None).has_room(u64::MAX));
}

#[test]
fn a_range_holds_what_was_asked_for() {
    assert_eq!(range_header(5, 9), "bytes=5-9");
    assert_eq!(range_failure(5, 9), "range bytes=5-9 failed");
    assert_eq!(worker_failure(0), "launcher update dynamic worker 1 failed");
    let refused = RangeDownload::new(5, 9, 200, "200 OK").unwrap_err();
    assert_eq!(refused, "range request returned unexpected status: 200 OK");
    let mut range = RangeDownload::new(5, 9, 206, "206 Partial Content").unwrap();
    assert!(range.wants_more(false));
    assert!(!range.wants_more(true));
    assert_eq!(range.on_read(3), Ok(RangeStep::Write));
    assert_eq!(
        range.on_read(3),
        Err("range response exceeded expected length: expected 5 bytes, got at least 6 bytes"
            .to_owned())
    );
    assert_eq!(range.on_read(0), Ok(RangeStep::End));
    assert_eq!(
        range.finish(false),
        Err("range response incomplete: expected 5 bytes, got 3 bytes".to_owned())
    );
    assert_eq!(range.finish(true), Ok(()));
    assert_eq!(range.on_read(2), Ok(RangeStep::Write));
    assert!(!range.wants_more(false));
    assert_eq!(range.finish(false), Ok(()));
}

#[test]
fn a_worker_stops_when_told_or_done() {
    assert_eq!(
        download_launcher_update_worker(false, Some((1, 2))),
        WorkerStep::Fetch { start: 1, end: 2 }
    );
    assert_eq!(download_launcher_update_worker(false, None), WorkerStep::Stop);
    assert_eq!(download_launcher_update_worker(true, None), WorkerStep::Stop);
}

#[test]
fn the_monitor_waits_for_every_worker() {
    let mut monitor = ParallelMonitor::new(1000, 2);
    assert!(monitor.waits());
    let report = monitor.on_news(WorkerNews::Nothing, 500, 0, 1).unwrap().unwrap();
    assert_eq!(report.progress, 50);
    assert!(monitor.on_news(WorkerNews::Finished, 500, 0, 1).unwrap().is_none());
    assert!(monitor.waits());
    let report = monitor.on_news(WorkerNews::Finished, 2000, 0, 1).unwrap().unwrap();
    assert_eq!(report.progress, 100);
    assert!(!monitor.waits());
    assert_eq!(monitor.finish(1000), Ok(1000));
    assert_eq!(
        monitor.finish(2000),
        Err("launcher update download incomplete: expected 1000 bytes, got 2000 bytes".to_owned())
    );
}

#[test]
fn the_monitor_hands_on_errors() {
    let mut monitor = ParallelMonitor::new(1000, 2);
    let failed = monitor.on_news(WorkerNews::Failed { error: "x".to_owned() }, 0, 0, 0);
    assert_eq!(failed.unwrap_err(), "x");
    let lost = monitor.on_news(WorkerNews::Disconnected, 0, 0, 0);
    assert_eq!(lost.unwrap_err(), "launcher update worker channel disconnected");
}

#[test]
fn bytes_are_written_in_hexadecimal() {
    assert_eq!(bytes_to_hex(&[]), "");
    assert_eq!(bytes_to_hex(&[0, 1, 15, 16, 171, 255]), "00010f10abff");
}

#[test]
fn digests_are_compared() {
    assert_eq!(sha256_file(b""), EMPTY_SHA256);
    assert_eq!(sha256_file(b"abc"), ABC_SHA256);
    assert_eq!(check_digest("aB", "Ab"), Ok(()));
    assert_eq!(
        check_digest("ab", "cd"),
        Err("launcher update sha256 mismatch: expected cd, got ab".to_owned())
    );
    assert_eq!(verify_launcher_update(b"abc", &ABC_SHA256.to_uppercase()), Ok(()));
    assert!(verify_launcher_update(b"abd", ABC_SHA256).is_err());
    assert!(matches!(finish_download(b"abc", ABC_SHA256), DownloadEnd::Done));
    let expected = format!("launcher update sha256 mismatch: expected x, got {ABC_SHA256}");
    assert!(matches!(
        finish_download(b"abc", "x"),
        DownloadEnd::Discard { error } if error == expected
    ));
    assert!(matches!(
        after_verification(Err("no".to_owned())),
        DownloadEnd::Discard { error } if error == "no"
    ));
}

#[test]
fn payload_digests_are_tidied() {
    assert_eq!(check_payload_digest("ab", " AB\n"), Ok(()));
    assert_eq!(
        check_payload_digest("ab", " CD "),
        Err("sha256 mismatch for update payload (expected cd, got ab)".to_owned())
    );
    assert_eq!(verify_update_payload(b"abc", &format!(" {} ", ABC_SHA256.to_uppercase())), Ok(()));
    assert!(verify_update_payload(b"abc", EMPTY_SHA256).is_err());
}

fn float_size(bytes: u64) -> String {
    const KIB: f64 = 1024.0;
    const MIB: f64 = KIB * 1024.0;
    const GIB: f64 = MIB * 1024.0;
    let bytes_f = bytes as f64;
    if bytes_f >= GIB {
        format!("{:.1} GiB", bytes_f / GIB)
    } else if bytes_f >= MIB {
        format!("{:.1} MiB", bytes_f / MIB)
    } else if bytes_f >= KIB {
        format!("{:.1} KiB", bytes_f / KIB)
    } else {
        format!("{bytes} B")
    }
}

#[test]
fn sizes_are_written_as_floats_are() {
    for bytes in [
        0, 1, 1023, 1024, 1075, 1076, 1127, 1536, 1587, 1_048_575, 1_048_576, 1_101_005, 1_153_433,
        1_073_741_823, 1_073_741_824, 123_456_789_012, 9_007_199_254_740_992,
        9_007_199_254_740_993, u64::MAX / 3, u64::MAX - 1, u64::MAX,
    ] {
        assert_eq!(format_bytes(bytes), float_size(bytes), "{bytes}");
    }
    for step in 0..4000u64 {
        assert_eq!(format_bytes(step * 13), float_size(step * 13));
        assert_eq!(format_bytes(step * 1_234_567), float_size(step * 1_234_567));
    }
}
