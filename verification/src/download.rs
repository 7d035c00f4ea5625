//! Download decisions: HTTP status classification, content-type acceptance,
//! chunked progress accounting, the post-download integrity check, and the
//! retry policy.
//!
//! The process layer streams the response body; after every chunk it reports
//! the chunk size here, and when the stream ends it must pass the integrity
//! check before the payload may reach extraction.

use vstd::prelude::*;

use crate::strutil::{icontains_seq, str_icontains};

verus! {

/// Why a download failed.
#[derive(Clone, Copy, Debug, PartialEq, Eq, Structural)]
pub enum DownloadError {
    /// Transport-level failure (connection, TLS, read).
    NetworkError,
    /// A response arrived with a non-success status.
    HttpError {
        /// The HTTP status code received.
        status: u16,
    },
    /// The response did not announce an archive-like content type.
    InvalidContentType,
    /// The stream ended with fewer or more bytes than the server declared.
    CorruptDownload {
        /// Bytes the `Content-Length` header declared.
        expected: u64,
        /// Bytes actually written.
        actual: u64,
    },
    /// Writing the payload to disk failed.
    IoError,
}

/// How one finished request attempt ended.
#[derive(Clone, Copy, Debug, PartialEq, Eq, Structural)]
pub enum AttemptOutcome {
    /// A 2xx response arrived.
    Success,
    /// The request failed below HTTP (connect, TLS, read).
    TransportError,
    /// A response arrived with this non-2xx status.
    HttpStatus {
        /// The HTTP status code received.
        status: u16,
    },
}

/// Server-side failures are worth retrying; client-side errors are not.
pub open spec fn retryable_spec(o: AttemptOutcome) -> bool {
    match o {
        AttemptOutcome::Success => false,
        AttemptOutcome::TransportError => true,
        AttemptOutcome::HttpStatus { status } => 500 <= status <= 599,
    }
}

/// Is this outcome worth another attempt at all?
pub fn outcome_is_retryable(o: &AttemptOutcome) -> (r: bool)
    ensures
        r == retryable_spec(*o),
{
    match o {
        AttemptOutcome::Success => false,
        AttemptOutcome::TransportError => true,
        AttemptOutcome::HttpStatus { status } => 500 <= *status && *status <= 599,
    }
}

/// The error a failed attempt surfaces once no retry follows.
pub fn outcome_error(o: &AttemptOutcome) -> (r: DownloadError)
    ensures
        o is TransportError ==> r == DownloadError::NetworkError,
        *o matches AttemptOutcome::HttpStatus { status } ==> r == (DownloadError::HttpError {
            status,
        }),
        o is Success ==> r == DownloadError::NetworkError,
{
    match o {
        AttemptOutcome::HttpStatus { status } => DownloadError::HttpError { status: *status },
        _ => DownloadError::NetworkError,
    }
}

/// Whether an HTTP status counts as success.
pub fn status_is_success(status: u16) -> (r: bool)
    ensures
        r == (200 <= status <= 299),
{
    200 <= status && status <= 299
}

/// Only archive-like payloads are accepted: the content type must mention
/// `zip` or `octet-stream` (ASCII-case-insensitively).  A missing header is
/// passed in as the empty string and is rejected.
pub fn acceptable_content_type(content_type: &str) -> (r: bool)
    ensures
        r == (icontains_seq(content_type@, "zip"@) || icontains_seq(
            content_type@,
            "octet-stream"@,
        )),
{
    if str_icontains(content_type, "zip") {
        true
    } else {
        str_icontains(content_type, "octet-stream")
    }
}

/// Retry policy for transient failures: a fixed attempt bound and a fixed
/// backoff between attempts.  Tests inject a zero-delay policy.
pub struct RetryPolicy {
    /// Total number of attempts allowed, including the first.
    pub max_attempts: u32,
    /// Delay before each retry, in milliseconds.
    pub backoff_ms: u64,
}

impl RetryPolicy {
    /// A policy with the given bounds.
    pub fn new(max_attempts: u32, backoff_ms: u64) -> (r: RetryPolicy)
        ensures
            r.max_attempts == max_attempts,
            r.backoff_ms == backoff_ms,
    {
        RetryPolicy { max_attempts, backoff_ms }
    }

    /// After `attempts_done` completed attempts whose last outcome was `o`:
    /// retry exactly when the bound allows another attempt and the failure
    /// was transient (transport, or a 5xx status).
    pub fn should_retry(&self, attempts_done: u32, o: &AttemptOutcome) -> (r: bool)
        ensures
            r == (attempts_done < self.max_attempts && retryable_spec(*o)),
    {
        attempts_done < self.max_attempts && outcome_is_retryable(o)
    }
}

/// Byte accounting for one download in flight.
pub struct DownloadProgress {
    /// The length the server declared, if any.
    pub declared_len: Option<u64>,
    /// Bytes written so far.
    pub downloaded: u64,
}

impl DownloadProgress {
    /// The denominator used for the progress fraction: the declared length,
    /// or `1` when it is absent or zero, so the fraction is always defined.
    pub open spec fn denominator(&self) -> int {
        match self.declared_len {
            Some(n) => if n > 0 {
                n as int
            } else {
                1
            },
            None => 1,
        }
    }

    /// Progress in thousandths, clamped to `1000`.
    pub open spec fn fraction_permille_spec(&self) -> int {
        if self.downloaded >= self.denominator() {
            1000
        } else {
            (self.downloaded * 1000) / self.denominator()
        }
    }

    /// Fresh accounting for a response with the given declared length.
    pub fn new(declared_len: Option<u64>) -> (r: DownloadProgress)
        ensures
            r.declared_len == declared_len,
            r.downloaded == 0,
    {
        DownloadProgress { declared_len, downloaded: 0 }
    }

    /// Records one chunk of `n` bytes written.  The running count saturates
    /// instead of wrapping, so it never decreases.
    pub fn record_chunk(&mut self, n: u64)
        ensures
            final(self).declared_len == old(self).declared_len,
            final(self).downloaded == if old(self).downloaded + n <= u64::MAX {
                old(self).downloaded + n
            } else {
                u64::MAX as int
            },
            final(self).downloaded >= old(self).downloaded,
    {
        if self.downloaded <= u64::MAX - n {
            self.downloaded = self.downloaded + n;
        } else {
            self.downloaded = u64::MAX;
        }
    }

    /// The current progress fraction in thousandths, for display.
    pub fn fraction_permille(&self) -> (p: u16)
        ensures
            p == self.fraction_permille_spec(),
            p <= 1000,
    {
        let total: u64 = match self.declared_len {
            Some(n) => if n > 0 {
                n
            } else {
                1
            },
            None => 1,
        };
        if self.downloaded >= total {
            1000
        } else {
            let d: u128 = self.downloaded as u128;
            let t: u128 = total as u128;
            assert((d as int) * 1000 / (t as int) < 1000) by (nonlinear_arith)
                requires
                    (d as int) < (t as int),
                    0 < (t as int),
            ;
            let p128: u128 = d * 1000 / t;
            proof {
                assert(p128 == self.fraction_permille_spec());
            }
            p128 as u16
        }
    }

    /// The integrity gate between download and extraction: when a length was
    /// declared, the bytes written must equal it exactly, otherwise the
    /// download is corrupt and nothing may be extracted or placed.
    pub fn check_download_integrity(&self) -> (r: Result<(), DownloadError>)
        ensures
            r is Ok <==> (self.declared_len is None || self.declared_len == Some(self.downloaded)),
            r matches Err(e) ==> e == (DownloadError::CorruptDownload {
                expected: self.declared_len->Some_0,
                actual: self.downloaded,
            }),
    {
        match self.declared_len {
            None => Ok(()),
            Some(expected) => {
                if self.downloaded == expected {
                    Ok(())
                } else {
                    Err(DownloadError::CorruptDownload { expected, actual: self.downloaded })
                }
            },
        }
    }
}

/// Within one download the displayed fraction never decreases: more bytes
/// never lower it.
pub proof fn lemma_progress_monotonic(a: DownloadProgress, b: DownloadProgress)
    requires
        a.declared_len == b.declared_len,
        a.downloaded <= b.downloaded,
    ensures
        a.fraction_permille_spec() <= b.fraction_permille_spec(),
{
    let t = a.denominator();
    if b.downloaded >= t {
        if a.downloaded >= t {
        } else {
            vstd::arithmetic::div_mod::lemma_div_pos_is_pos(a.downloaded * 1000, t);
            assert(a.downloaded * 1000 / t < 1000) by (nonlinear_arith)
                requires
                    a.downloaded < t,
                    0 < t,
            ;
        }
    } else {
        assert(a.downloaded * 1000 <= b.downloaded * 1000) by (nonlinear_arith)
            requires
                a.downloaded <= b.downloaded,
            ;
        vstd::arithmetic::div_mod::lemma_div_is_ordered(
            a.downloaded * 1000,
            b.downloaded * 1000,
            t,
        );
    }
}

} // verus!
