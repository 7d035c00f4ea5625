use nightwatch_updater::download::{
    acceptable_content_type, outcome_error, outcome_is_retryable, status_is_success,
    AttemptOutcome, DownloadError, DownloadProgress, RetryPolicy,
};

#[test]
fn status_classification() {
    assert!(status_is_success(200));
    assert!(status_is_success(204));
    assert!(status_is_success(299));
    assert!(!status_is_success(199));
    assert!(!status_is_success(301));
    assert!(!status_is_success(404));
    assert!(!status_is_success(500));
}

#[test]
fn retryability_of_outcomes() {
    assert!(outcome_is_retryable(&AttemptOutcome::TransportError));
    assert!(outcome_is_retryable(&AttemptOutcome::HttpStatus { status: 500 }));
    assert!(outcome_is_retryable(&AttemptOutcome::HttpStatus { status: 503 }));
    assert!(!outcome_is_retryable(&AttemptOutcome::HttpStatus { status: 404 }));
    assert!(!outcome_is_retryable(&AttemptOutcome::HttpStatus { status: 301 }));
    assert!(!outcome_is_retryable(&AttemptOutcome::Success));
}

#[test]
fn errors_carry_the_last_failure_detail() {
    assert_eq!(outcome_error(&AttemptOutcome::TransportError), DownloadError::NetworkError);
    assert_eq!(
        outcome_error(&AttemptOutcome::HttpStatus { status: 404 }),
        DownloadError::HttpError { status: 404 }
    );
}

#[test]
fn retry_policy_respects_the_bound() {
    let p = RetryPolicy::new(3, 0);
    let transient = AttemptOutcome::TransportError;
    assert!(p.should_retry(1, &transient));
    assert!(p.should_retry(2, &transient));
    assert!(!p.should_retry(3, &transient));
    let fatal = AttemptOutcome::HttpStatus { status: 404 };
    assert!(!p.should_retry(1, &fatal));
}

#[test]
fn content_type_acceptance() {
    assert!(acceptable_content_type("application/zip"));
    assert!(acceptable_content_type("application/octet-stream"));
    assert!(acceptable_content_type("Application/ZIP"));
    assert!(acceptable_content_type("APPLICATION/OCTET-STREAM; charset=binary"));
    assert!(!acceptable_content_type("text/html"));
    assert!(!acceptable_content_type(""));
}

#[test]
fn progress_fraction_formula() {
    let mut p = DownloadProgress::new(Some(1000));
    assert_eq!(p.fraction_permille(), 0);
    p.record_chunk(250);
    assert_eq!(p.fraction_permille(), 250);
    p.record_chunk(250);
    assert_eq!(p.fraction_permille(), 500);
    p.record_chunk(500);
    assert_eq!(p.fraction_permille(), 1000);
}

#[test]
fn progress_is_monotonic_and_clamped() {
    let mut p = DownloadProgress::new(Some(100));
    let mut last = p.fraction_permille();
    for _ in 0..20 {
        p.record_chunk(9);
        let now = p.fraction_permille();
        assert!(now >= last);
        last = now;
    }
    assert_eq!(last, 1000);
}

#[test]
fn unknown_length_reports_indeterminate_progress_without_panicking() {
    let mut p = DownloadProgress::new(None);
    p.record_chunk(12345);
    assert_eq!(p.fraction_permille(), 1000);
    let mut z = DownloadProgress::new(Some(0));
    assert_eq!(z.fraction_permille(), 0);
    z.record_chunk(1);
    assert_eq!(z.fraction_permille(), 1000);
}

#[test]
fn short_stream_is_a_corrupt_download() {
    let mut p = DownloadProgress::new(Some(1000));
    p.record_chunk(500);
    assert_eq!(
        p.check_download_integrity(),
        Err(DownloadError::CorruptDownload { expected: 1000, actual: 500 })
    );
}

#[test]
fn exact_stream_passes_the_integrity_check() {
    let mut p = DownloadProgress::new(Some(1000));
    p.record_chunk(600);
    p.record_chunk(400);
    assert!(p.check_download_integrity().is_ok());
    let mut unknown = DownloadProgress::new(None);
    unknown.record_chunk(7);
    assert!(unknown.check_download_integrity().is_ok());
}

#[test]
fn overlong_stream_is_corrupt_too() {
    let mut p = DownloadProgress::new(Some(100));
    p.record_chunk(150);
    assert_eq!(
        p.check_download_integrity(),
        Err(DownloadError::CorruptDownload { expected: 100, actual: 150 })
    );
}
