use laracli::download::{
    after_failure, incomplete_message, is_complete, range_header, resume_offset, should_flush,
    status_is_usable, total_size, Failure, Next, FILE_RETRY_WAIT_SECS, FLUSH_AFTER_NANOS,
    FLUSH_EVERY_BYTES, PARTIAL_CONTENT, RETRY_WAIT_SECS,
};

#[test]
fn the_first_attempt_starts_at_zero() {
    assert_eq!(resume_offset(1, Some(500)), 0);
    assert_eq!(resume_offset(1, None), 0);
    assert_eq!(resume_offset(0, Some(500)), 0);
}

#[test]
fn later_attempts_take_the_file_up() {
    assert_eq!(resume_offset(2, Some(500)), 500);
    assert_eq!(resume_offset(3, Some(0)), 0);
    assert_eq!(resume_offset(2, None), 0);
}

#[test]
fn a_range_is_asked_for_when_resuming() {
    assert_eq!(range_header(0), None);
    assert_eq!(range_header(500), Some("bytes=500-".to_string()));
    assert_eq!(range_header(u64::MAX), Some("bytes=18446744073709551615-".to_string()));
}

#[test]
fn success_statuses_are_usable() {
    assert!(status_is_usable(200));
    assert!(status_is_usable(206));
    assert!(status_is_usable(299));
    assert!(!status_is_usable(199));
    assert!(!status_is_usable(300));
    assert!(!status_is_usable(404));
    assert!(!status_is_usable(500));
    assert_eq!(PARTIAL_CONTENT, 206);
}

#[test]
fn a_whole_file_has_the_announced_length() {
    assert_eq!(total_size(200, None, Some(1000), 0), 1000);
    assert_eq!(total_size(200, Some("bytes 0-9/77"), Some(1000), 5), 1000);
    assert_eq!(total_size(200, None, None, 5), 0);
}

#[test]
fn a_part_names_the_size_after_the_slash() {
    assert_eq!(total_size(206, Some("bytes 500-999/1000"), Some(500), 500), 1000);
    assert_eq!(total_size(206, Some("bytes 500-999/1000/7"), Some(500), 500), 1000);
    assert_eq!(total_size(206, Some("bytes 500-999/*"), Some(500), 500), 0);
    assert_eq!(total_size(206, Some("bytes 500-999/"), Some(500), 500), 0);
    assert_eq!(total_size(206, Some("/12"), None, 0), 12);
    assert_eq!(total_size(206, Some("a/ 12"), None, 0), 0);
}

#[test]
fn a_part_without_a_size_counts_from_the_offset() {
    assert_eq!(total_size(206, None, Some(500), 500), 1000);
    assert_eq!(total_size(206, Some("bytes 500-999"), Some(500), 500), 1000);
    assert_eq!(total_size(206, Some(""), None, 500), 500);
    assert_eq!(total_size(206, None, Some(u64::MAX), 1), u64::MAX);
}

#[test]
fn a_download_is_complete_when_all_bytes_are_there() {
    assert!(is_complete(true, 1000, 1000));
    assert!(is_complete(true, 1000, 1001));
    assert!(is_complete(true, 0, 0));
    assert!(is_complete(true, 0, 17));
    assert!(!is_complete(true, 1000, 999));
    assert!(!is_complete(false, 1000, 1000));
    assert!(!is_complete(false, 0, 0));
}

#[test]
fn the_file_is_flushed_by_size_or_by_time() {
    assert!(should_flush(0, 0));
    assert!(should_flush(FLUSH_EVERY_BYTES, 0));
    assert!(should_flush(3 * FLUSH_EVERY_BYTES, 0));
    assert!(!should_flush(FLUSH_EVERY_BYTES + 1, 0));
    assert!(!should_flush(8192, FLUSH_AFTER_NANOS));
    assert!(should_flush(8192, FLUSH_AFTER_NANOS + 1));
    assert_eq!(FLUSH_EVERY_BYTES, 10 * 1024 * 1024);
    assert_eq!(FLUSH_AFTER_NANOS, 5_000_000_000);
}

#[test]
fn a_failure_before_the_last_attempt_is_retried() {
    assert_eq!(after_failure(1, 3, Failure::Request), Next::Retry { wait_secs: 10 });
    assert_eq!(after_failure(2, 3, Failure::Status), Next::Retry { wait_secs: 10 });
    assert_eq!(after_failure(1, 3, Failure::OpenFile), Next::Retry { wait_secs: 5 });
    assert_eq!(after_failure(2, 7, Failure::Incomplete), Next::Retry { wait_secs: 10 });
    assert_eq!(RETRY_WAIT_SECS, 10);
    assert_eq!(FILE_RETRY_WAIT_SECS, 5);
}

#[test]
fn a_failure_in_the_last_attempt_gives_up() {
    assert_eq!(after_failure(3, 3, Failure::Request), Next::GiveUp { remove_partial: false });
    assert_eq!(after_failure(3, 3, Failure::Status), Next::GiveUp { remove_partial: false });
    assert_eq!(after_failure(3, 3, Failure::OpenFile), Next::GiveUp { remove_partial: false });
    assert_eq!(after_failure(3, 3, Failure::Incomplete), Next::GiveUp { remove_partial: true });
    assert_eq!(after_failure(1, 1, Failure::Incomplete), Next::GiveUp { remove_partial: true });
}

#[test]
fn an_incomplete_download_is_reported_with_its_numbers() {
    assert_eq!(
        incomplete_message(3, 512, 1000),
        "Download incomplete after 3 attempts. Last attempt downloaded 512 of 1000 bytes"
    );
}
