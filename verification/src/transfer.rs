//! The rules a resumable file transfer follows: which answers it accepts,
//! how it learns the file's size, and when it tries again or gives up.
//!
//! The loop that sends requests and writes chunks lives with the caller; it
//! hands each answer and each stream event to these functions and does what
//! they decide.

use vstd::prelude::*;

use crate::text::{chars_of, decimal, parse_u64, parse_u64_chars, push_decimal, push_str};

verus! {

/// Recoverable failures in a row, without progress, after which a transfer
/// gives up.
pub const MAX_RECOVERY_ATTEMPTS: u64 = 6;

/// Bytes asked for by one ranged request of the catalog downloader.
pub const RANGE_CHUNK_BYTES: u64 = 1048576;

/// Request timeout of the catalog downloader when the size is known.
pub const STREAM_REQUEST_TIMEOUT_SECS: u64 = 10;

/// Request timeout of the catalog downloader when the size is unknown.
pub const LEGACY_STREAM_TIMEOUT_SECS: u64 = 300;

/// How many redirects the catalog downloader follows.
pub const MAX_REDIRECTS: u64 = 5;

/// `u64::saturating_add`.
pub open spec fn sat_add(a: u64, b: u64) -> u64 {
    if a + b <= u64::MAX {
        (a + b) as u64
    } else {
        u64::MAX
    }
}

/// `u64::saturating_sub`.
pub open spec fn sat_sub(a: u64, b: u64) -> u64 {
    if a >= b {
        (a - b) as u64
    } else {
        0
    }
}

/// Why a mod file could not be downloaded.
#[derive(Debug)]
pub enum ModFileDownloadError {
    Http(String),
    Io(String),
    Runtime(String),
}

impl ModFileDownloadError {
    /// The text the error is displayed with.
    pub fn message(&self) -> (r: String)
        ensures
            r@ == (match self {
                ModFileDownloadError::Http(m) => "HTTP error: "@ + m@,
                ModFileDownloadError::Io(m) => "IO error: "@ + m@,
                ModFileDownloadError::Runtime(m) => "Runtime error: "@ + m@,
            }),
    {
        let (mut r, m) = match self {
            ModFileDownloadError::Http(m) => ("HTTP error: ".to_owned(), m),
            ModFileDownloadError::Io(m) => ("IO error: ".to_owned(), m),
            ModFileDownloadError::Runtime(m) => ("Runtime error: ".to_owned(), m),
        };
        push_str(&mut r, m.as_str());
        r
    }
}

/// The error text of a transfer stopped on request.
pub open spec fn cancelled_text() -> Seq<char> {
    "download cancelled"@
}

/// The error of a transfer stopped on request.
pub fn cancelled_error() -> (r: String)
    ensures
        r@ == cancelled_text(),
{
    "download cancelled".to_owned()
}

/// Parses a header value as `str::parse::<u64>` does.
pub fn parse_u64_str(s: &str) -> (r: Option<u64>)
    ensures
        r == parse_u64(s@),
{
    let cs = chars_of(s);
    parse_u64_chars(cs.as_slice())
}

/// The `Range` header that asks for everything from `from` on.
pub fn open_range_header(from: u64) -> (r: String)
    ensures
        r@ == "bytes="@ + decimal(from as nat) + "-"@,
{
    let mut r = "bytes=".to_owned();
    push_decimal(&mut r, from);
    push_str(&mut r, "-");
    r
}

/// The `Range` header that asks for the bytes `from..=to`.
pub fn chunk_range_header(from: u64, to: u64) -> (r: String)
    ensures
        r@ == "bytes="@ + decimal(from as nat) + "-"@ + decimal(to as nat),
{
    let mut r = "bytes=".to_owned();
    push_decimal(&mut r, from);
    push_str(&mut r, "-");
    push_decimal(&mut r, to);
    r
}

/// The last byte a chunked request starting at `from` asks for.
pub fn requested_range_end(from: u64) -> (r: u64)
    ensures
        r == sat_add(from, (RANGE_CHUNK_BYTES - 1) as u64),
{
    from.saturating_add(RANGE_CHUNK_BYTES - 1)
}

/// The request timeout of the catalog downloader, in seconds.
pub fn chunk_request_timeout(effective_total: u64) -> (r: u64)
    ensures
        r == (if effective_total > 0 {
            STREAM_REQUEST_TIMEOUT_SECS
        } else {
            LEGACY_STREAM_TIMEOUT_SECS
        }),
{
    if effective_total > 0 {
        STREAM_REQUEST_TIMEOUT_SECS
    } else {
        LEGACY_STREAM_TIMEOUT_SECS
    }
}

/// What a `416 Range Not Satisfiable` answer means for a partial file.
#[derive(Debug)]
pub enum RangeVerdict {
    /// The file on disk is already whole: report it and stop.
    Complete(u64),
    /// The file on disk is longer than the remote one: delete it and start
    /// again, expecting this many bytes.
    Restart(u64),
    /// Give up with this error.
    Fail(String),
}

/// The verdict on a 416 answer, from the local length and the total named in
/// its `Content-Range` header, if one could be read.
pub open spec fn range_verdict_spec(existing_len: u64, remote_total: Option<u64>) -> (
    u8,
    u64,
    Seq<char>,
) {
    match remote_total {
        Some(t) => if existing_len == t && t > 0 {
            (0u8, t, Seq::empty())
        } else if existing_len > t && t > 0 {
            (1u8, t, Seq::empty())
        } else {
            (
                2u8,
                0u64,
                "Unexpected status: 416 (local="@ + decimal(existing_len as nat) + ", remote="@
                    + decimal(t as nat) + ")"@,
            )
        },
        None => (2u8, 0u64, "Unexpected status: 416 (local="@ + decimal(existing_len as nat) + ")"@),
    }
}

impl RangeVerdict {
    /// The verdict as (kind, size, error text): kind 0 is `Complete`, 1 is
    /// `Restart`, 2 is `Fail`.
    pub open spec fn parts(self) -> (u8, u64, Seq<char>) {
        match self {
            RangeVerdict::Complete(t) => (0u8, t, Seq::empty()),
            RangeVerdict::Restart(t) => (1u8, t, Seq::empty()),
            RangeVerdict::Fail(m) => (2u8, 0u64, m@),
        }
    }
}

/// Judges a 416 answer.
pub fn judge_range_not_satisfiable(existing_len: u64, remote_total: Option<u64>) -> (r:
    RangeVerdict)
    ensures
        r.parts() == range_verdict_spec(existing_len, remote_total),
{
    match remote_total {
        Some(t) => {
            if existing_len == t && t > 0 {
                RangeVerdict::Complete(t)
            } else if existing_len > t && t > 0 {
                RangeVerdict::Restart(t)
            } else {
                let mut m = "Unexpected status: 416 (local=".to_owned();
                push_decimal(&mut m, existing_len);
                push_str(&mut m, ", remote=");
                push_decimal(&mut m, t);
                push_str(&mut m, ")");
                RangeVerdict::Fail(m)
            }
        },
        None => {
            let mut m = "Unexpected status: 416 (local=".to_owned();
            push_decimal(&mut m, existing_len);
            push_str(&mut m, ")");
            RangeVerdict::Fail(m)
        },
    }
}

/// The error for an answer the direct downloader does not take, or `None`
/// when it takes it (a 206, or a 200 to a request from byte zero). A 416 is
/// judged apart and is not asked about here.
pub open spec fn direct_status_error(status: u16, resume_from: u64) -> Option<Seq<char>> {
    if status == 206 || (status == 200 && resume_from == 0) {
        None
    } else if resume_from > 0 && status == 200 {
        Some("server ignored range resume request"@)
    } else {
        Some("Unexpected status: "@ + decimal(status as nat))
    }
}

pub fn check_direct_status(status: u16, resume_from: u64) -> (r: Option<String>)
    requires
        status != 416,
    ensures
        r.is_some() == direct_status_error(status, resume_from).is_some(),
        r.is_some() ==> r.unwrap()@ == direct_status_error(status, resume_from).unwrap(),
{
    if status == 206 || (status == 200 && resume_from == 0) {
        None
    } else if resume_from > 0 && status == 200 {
        Some("server ignored range resume request".to_owned())
    } else {
        let mut m = "Unexpected status: ".to_owned();
        push_decimal(&mut m, status as u64);
        Some(m)
    }
}

/// The size the direct downloader expects after an accepted answer: the
/// total of `Content-Range`, else the `Content-Length` (added to the resume
/// point for a 206), else what it expected before.
pub open spec fn direct_total_spec(
    status: u16,
    resume_from: u64,
    range_total: Option<u64>,
    content_length: Option<u64>,
    current: u64,
) -> u64 {
    match range_total {
        Some(t) => t,
        None => match content_length {
            Some(n) => if status == 206 {
                sat_add(resume_from, n)
            } else if status == 200 {
                n
            } else {
                current
            },
            None => current,
        },
    }
}

pub fn direct_total(
    status: u16,
    resume_from: u64,
    range_total: Option<u64>,
    content_length: Option<u64>,
    current: u64,
) -> (r: u64)
    ensures
        r == direct_total_spec(status, resume_from, range_total, content_length, current),
{
    match range_total {
        Some(t) => t,
        None => match content_length {
            Some(n) => {
                if status == 206 {
                    resume_from.saturating_add(n)
                } else if status == 200 {
                    n
                } else {
                    current
                }
            },
            None => current,
        },
    }
}

/// The size the catalog downloader expects after an accepted answer: the
/// total of `Content-Range`, else, for a 200 while the size is unknown, the
/// `Content-Length`.
pub open spec fn chunk_total_spec(
    status: u16,
    range_total: Option<u64>,
    content_length: Option<u64>,
    current: u64,
) -> u64 {
    match range_total {
        Some(t) => t,
        None => if status == 200 && current == 0 && content_length.is_some() {
            content_length.unwrap()
        } else {
            current
        },
    }
}

pub fn chunk_total(
    status: u16,
    range_total: Option<u64>,
    content_length: Option<u64>,
    current: u64,
) -> (r: u64)
    ensures
        r == chunk_total_spec(status, range_total, content_length, current),
{
    match range_total {
        Some(t) => t,
        None => {
            if status == 200 && current == 0 {
                match content_length {
                    Some(n) => n,
                    None => current,
                }
            } else {
                current
            }
        },
    }
}

/// How far one chunked request should bring the file, when the size is known.
pub open spec fn expected_after_chunk_spec(effective_total: u64, status: u16, range_end: u64) -> Option<
    u64,
> {
    if effective_total > 0 {
        if status == 206 {
            let e = sat_add(range_end, 1);
            Some(if e < effective_total {
                e
            } else {
                effective_total
            })
        } else if status == 200 {
            Some(effective_total)
        } else {
            None
        }
    } else {
        None
    }
}

pub fn expected_after_chunk(effective_total: u64, status: u16, range_end: u64) -> (r: Option<u64>)
    ensures
        r == expected_after_chunk_spec(effective_total, status, range_end),
{
    if effective_total > 0 {
        if status == 206 {
            let e = range_end.saturating_add(1);
            Some(
                if e < effective_total {
                    e
                } else {
                    effective_total
                },
            )
        } else if status == 200 {
            Some(effective_total)
        } else {
            None
        }
    } else {
        None
    }
}

/// Whether the answer is written after the bytes already on disk.
pub fn appends(resume_from: u64, status: u16) -> (r: bool)
    ensures
        r == (resume_from > 0 && status == 206),
{
    resume_from > 0 && status == 206
}

/// Whether a status is a redirect the catalog downloader follows.
pub open spec fn is_redirect(status: u16) -> bool {
    status == 301 || status == 302 || status == 307 || status == 308
}

/// What the catalog downloader does with the answer to one of its ranged
/// requests.
#[derive(Debug)]
pub enum ChunkAnswer {
    /// Send the request again to this address.
    Follow(String),
    /// Take the body, written after the bytes on disk when `append`.
    Body { append: bool },
    /// A 416 answer, judged against the file on disk.
    Range(RangeVerdict),
    /// Give up with this error.
    Fail(String),
}

/// `r` is what the catalog downloader does with an answer of `status`
/// (carrying the `Location` header `location`) to the `requests_made`-th
/// request of a round, asked from byte `resume_from` with `existing_len`
/// bytes on disk and `remote_total` read from a `Content-Range` header:
/// a redirect is followed while fewer than `MAX_REDIRECTS` requests went
/// out; a 206 is taken; a 200 means the range was ignored; a 416 is judged;
/// anything else fails.
pub open spec fn chunk_answer_is(
    r: ChunkAnswer,
    status: u16,
    location: Option<Seq<char>>,
    requests_made: u64,
    resume_from: u64,
    existing_len: u64,
    remote_total: Option<u64>,
) -> bool {
    if is_redirect(status) {
        match location {
            Some(l) => if requests_made < MAX_REDIRECTS {
                r matches ChunkAnswer::Follow(u) && u@ == l
            } else {
                r matches ChunkAnswer::Fail(m) && m@ == "Too many redirects"@
            },
            None => r matches ChunkAnswer::Fail(m) && m@ == "Redirect without Location"@,
        }
    } else if status == 206 {
        r matches ChunkAnswer::Body { append } && append == (resume_from > 0)
    } else if status == 200 {
        r matches ChunkAnswer::Fail(m) && m@ == "server ignored range resume request"@
    } else if status == 416 {
        r matches ChunkAnswer::Range(v) && v.parts() == range_verdict_spec(existing_len, remote_total)
    } else {
        r matches ChunkAnswer::Fail(m) && m@ == "Unexpected status: "@ + decimal(status as nat)
    }
}

/// The view of an optional header value.
pub open spec fn opt_str_view(o: Option<&str>) -> Option<Seq<char>> {
    match o {
        Some(s) => Some(s@),
        None => None,
    }
}

/// Judges the answer to one ranged request of the catalog downloader (see
/// `chunk_answer_is`).
pub fn judge_chunk_answer(
    status: u16,
    location: Option<&str>,
    requests_made: u64,
    resume_from: u64,
    existing_len: u64,
    remote_total: Option<u64>,
) -> (r: ChunkAnswer)
    ensures
        chunk_answer_is(
            r,
            status,
            opt_str_view(location),
            requests_made,
            resume_from,
            existing_len,
            remote_total,
        ),
{
    if status == 301 || status == 302 || status == 307 || status == 308 {
        match location {
            Some(l) => {
                if requests_made < MAX_REDIRECTS {
                    ChunkAnswer::Follow(l.to_owned())
                } else {
                    ChunkAnswer::Fail("Too many redirects".to_owned())
                }
            },
            None => ChunkAnswer::Fail("Redirect without Location".to_owned()),
        }
    } else if status == 206 {
        ChunkAnswer::Body { append: resume_from > 0 }
    } else if status == 200 {
        ChunkAnswer::Fail("server ignored range resume request".to_owned())
    } else if status == 416 {
        ChunkAnswer::Range(judge_range_not_satisfiable(existing_len, remote_total))
    } else {
        let mut m = "Unexpected status: ".to_owned();
        push_decimal(&mut m, status as u64);
        ChunkAnswer::Fail(m)
    }
}

/// What the transfer does next.
#[derive(Debug, Clone, Copy, PartialEq, Eq, Structural)]
pub enum Step {
    /// The file is whole with this many bytes.
    Finished(u64),
    /// Send the next request at once.
    Retry,
    /// Wait a little, then send the next request.
    RetryAfterPause,
    /// Stop; the error is the last one recorded.
    GiveUp,
}

/// The recovery state of one transfer.
pub struct Recovery {
    pub effective_total: u64,
    pub failures: u64,
    pub last_error: Option<String>,
}

/// Counts one more failure without progress (saturating).
pub open spec fn bumped(f: u64) -> u64 {
    sat_add(f, 1)
}

impl Recovery {
    /// A transfer that expects `size` bytes (zero when unknown).
    pub fn new(size: u64) -> (r: Self)
        ensures
            r.effective_total == size,
            r.failures == 0,
            r.last_error is None,
    {
        Recovery { effective_total: size, failures: 0, last_error: None }
    }

    /// Applies a 416 answer: a restart resets the failure count and takes the
    /// remote size.
    pub fn on_range_not_satisfiable(&mut self, existing_len: u64, remote_total: Option<u64>) -> (r:
        RangeVerdict)
        ensures
            r.parts() == range_verdict_spec(existing_len, remote_total),
            r is Restart ==> final(self).effective_total == r.parts().1 && final(self).failures
                == 0 && final(self).last_error == old(self).last_error,
            !(r is Restart) ==> *final(self) == *old(self),
    {
        let v = judge_range_not_satisfiable(existing_len, remote_total);
        match &v {
            RangeVerdict::Restart(t) => {
                self.effective_total = *t;
                self.failures = 0;
            },
            _ => {},
        }
        v
    }

    /// Applies the answer to one ranged request of the catalog downloader:
    /// it is judged as `judge_chunk_answer` does; a 416 that asks for a
    /// restart takes the remote size and resets the failure count; nothing
    /// else changes.
    pub fn on_chunk_answer(
        &mut self,
        status: u16,
        location: Option<&str>,
        requests_made: u64,
        resume_from: u64,
        existing_len: u64,
        remote_total: Option<u64>,
    ) -> (r: ChunkAnswer)
        ensures
            chunk_answer_is(
                r,
                status,
                opt_str_view(location),
                requests_made,
                resume_from,
                existing_len,
                remote_total,
            ),
            (r matches ChunkAnswer::Range(v) && v is Restart) ==> final(self).effective_total
                == range_verdict_spec(existing_len, remote_total).1 && final(self).failures == 0
                && final(self).last_error == old(self).last_error,
            !(r matches ChunkAnswer::Range(v) && v is Restart) ==> *final(self) == *old(self),
    {
        let answer = judge_chunk_answer(status, location, requests_made, resume_from, existing_len, remote_total);
        match &answer {
            ChunkAnswer::Range(RangeVerdict::Restart(t)) => {
                self.effective_total = *t;
                self.failures = 0;
            },
            _ => {},
        }
        answer
    }

    /// A ranged answer of the catalog downloader was taken: the expected size
    /// becomes the one its headers name (see `chunk_total`), and the result
    /// is how far the request should bring the file, when the size is known.
    pub fn on_chunk_body(
        &mut self,
        status: u16,
        range_total: Option<u64>,
        content_length: Option<u64>,
        range_end: u64,
    ) -> (r: Option<u64>)
        ensures
            final(self).effective_total == chunk_total_spec(
                status,
                range_total,
                content_length,
                old(self).effective_total,
            ),
            final(self).failures == old(self).failures,
            final(self).last_error == old(self).last_error,
            r == expected_after_chunk_spec(final(self).effective_total, status, range_end),
    {
        self.effective_total = chunk_total(status, range_total, content_length, self.effective_total);
        expected_after_chunk(self.effective_total, status, range_end)
    }

    /// A read of the answer's body failed with `message`. Progress during the
    /// request makes it try again at once with a fresh count (as does a
    /// timeout while the size is known); otherwise it counts the failure,
    /// gives up at the limit, and tries again after a pause.
    pub fn on_read_error(
        &mut self,
        downloaded: u64,
        started_from: u64,
        timed_out: bool,
        message: String,
    ) -> (r: Step)
        ensures
            final(self).last_error == Some(message),
            final(self).effective_total == old(self).effective_total,
            downloaded > started_from ==> r == Step::Retry && final(self).failures == 0,
            downloaded <= started_from ==> final(self).failures == bumped(old(self).failures) && r
                == (if bumped(old(self).failures) >= MAX_RECOVERY_ATTEMPTS {
                Step::GiveUp
            } else {
                Step::RetryAfterPause
            }),
    {
        self.last_error = Some(message);
        let made_progress = downloaded > started_from;
        if self.effective_total > 0 && timed_out && made_progress {
            self.failures = 0;
            return Step::Retry;
        }
        if made_progress {
            self.failures = 0;
            return Step::Retry;
        }
        self.failures = self.failures.saturating_add(1);
        if self.failures >= MAX_RECOVERY_ATTEMPTS {
            Step::GiveUp
        } else {
            Step::RetryAfterPause
        }
    }

    /// The answer's body ended. A whole file (or one of unknown size) is
    /// finished; a chunk that reached what it was asked for moves on at once;
    /// otherwise the stream ended early, which is handled like a read error.
    pub fn on_stream_end(&mut self, downloaded: u64, started_from: u64, expected: Option<u64>) -> (r:
        Step)
        ensures
            final(self).effective_total == old(self).effective_total,
            old(self).effective_total == 0 || downloaded >= old(self).effective_total ==> r
                == Step::Finished(downloaded) && *final(self) == *old(self),
            !(old(self).effective_total == 0 || downloaded >= old(self).effective_total) && (
            expected matches Some(e) && downloaded >= e) ==> r == Step::Retry && final(self).failures
                == 0 && final(self).last_error == old(self).last_error,
            !(old(self).effective_total == 0 || downloaded >= old(self).effective_total) && !(
            expected matches Some(e) && downloaded >= e) ==> {
                &&& final(self).last_error matches Some(m) && m@ == "stream ended early ("@
                    + decimal(downloaded as nat) + "/"@ + decimal(old(self).effective_total as nat)
                    + " bytes)"@
                &&& downloaded > started_from ==> r == Step::Retry && final(self).failures == 0
                &&& downloaded <= started_from ==> final(self).failures == bumped(
                    old(self).failures,
                ) && r == (if bumped(old(self).failures) >= MAX_RECOVERY_ATTEMPTS {
                    Step::GiveUp
                } else {
                    Step::RetryAfterPause
                })
            },
    {
        if self.effective_total == 0 || downloaded >= self.effective_total {
            return Step::Finished(downloaded);
        }
        match expected {
            Some(e) => {
                if downloaded >= e {
                    self.failures = 0;
                    return Step::Retry;
                }
            },
            None => {},
        }
        let mut m = "stream ended early (".to_owned();
        push_decimal(&mut m, downloaded);
        push_str(&mut m, "/");
        push_decimal(&mut m, self.effective_total);
        push_str(&mut m, " bytes)");
        self.last_error = Some(m);
        if downloaded > started_from {
            self.failures = 0;
            return Step::Retry;
        }
        self.failures = self.failures.saturating_add(1);
        if self.failures >= MAX_RECOVERY_ATTEMPTS {
            Step::GiveUp
        } else {
            Step::RetryAfterPause
        }
    }

    /// The error a transfer that gave up reports.
    pub fn final_error(&self) -> (r: String)
        ensures
            r@ == (match self.last_error {
                Some(m) => m@,
                None => "unexpected end of file"@,
            }),
    {
        match &self.last_error {
            Some(m) => m.clone(),
            None => "unexpected end of file".to_owned(),
        }
    }
}

} // verus!
