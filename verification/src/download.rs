//! The download engine's decisions: what a response means, what a finished
//! transfer amounts to, how failures are classified, and when to retry.
//!
//! Bytes go straight to disk elsewhere; here they are counted and hashed on
//! the way through. A transfer that delivers other than the promised number
//! of bytes never becomes a cached episode.

use vstd::prelude::*;

use crate::digest::{Digest, HashStream};
use crate::domain::{redacted, AudioMime, AudioSource, ErrorClass, RedactedUrl};
use crate::text::{begins_with, decimal_text};

verus! {

/// How often a transient failure is retried.
pub const MAX_RETRIES: u32 = 2;

/// Errors of a download. URLs inside are redacted.
#[derive(Debug)]
pub enum DownloadError {
    /// Could not construct the HTTP client.
    Client(String),
    /// Connection, DNS, timeout, or mid-transfer failure.
    Network {
        /// The URL, credentials redacted.
        url: RedactedUrl,
        /// What went wrong.
        reason: String,
    },
    /// Upstream answered with a non-success status.
    Status {
        /// The HTTP status code.
        status: u16,
        /// The URL, credentials redacted.
        url: RedactedUrl,
    },
    /// Fewer or more bytes arrived than upstream promised.
    Truncated {
        /// The URL, credentials redacted.
        url: RedactedUrl,
        /// Bytes promised.
        expected: u64,
        /// Bytes received.
        actual: u64,
    },
    /// Local filesystem failure.
    Disk {
        /// The file or directory involved.
        path: String,
        /// What the system said.
        reason: String,
    },
}

/// The class of a download failure.
pub open spec fn download_class(error: DownloadError) -> ErrorClass {
    match error {
        DownloadError::Client(_) => ErrorClass::Network,
        DownloadError::Network { .. } => ErrorClass::Network,
        DownloadError::Truncated { .. } => ErrorClass::Network,
        DownloadError::Status { .. } => ErrorClass::HttpStatus,
        DownloadError::Disk { .. } => ErrorClass::Disk,
    }
}

/// Whether trying the whole transfer again might help.
pub open spec fn transient(error: DownloadError) -> bool {
    match error {
        DownloadError::Network { .. } => true,
        DownloadError::Truncated { .. } => true,
        DownloadError::Status { status, .. } => status >= 500,
        DownloadError::Client(_) => false,
        DownloadError::Disk { .. } => false,
    }
}

/// The message of a download failure.
pub open spec fn download_error_text(error: DownloadError) -> Seq<char> {
    match error {
        DownloadError::Client(reason) => "failed to build download client: "@ + reason@,
        DownloadError::Network { url, reason } => "network failure downloading "@ + url@ + ": "@
            + reason@,
        DownloadError::Status { status, url } => "upstream returned HTTP "@
            + crate::text::decimal(status as nat) + " for "@ + url@,
        DownloadError::Truncated { url, expected, actual } => "transfer of "@ + url@
            + " truncated: expected "@ + crate::text::decimal(expected as nat) + " bytes, got "@
            + crate::text::decimal(actual as nat),
        DownloadError::Disk { path, reason } => "disk I/O failed for "@ + path@ + ": "@ + reason@,
    }
}

impl DownloadError {
    /// The metrics and state label for this failure.
    pub fn class(&self) -> (class: ErrorClass)
        ensures
            class == download_class(*self),
    {
        match self {
            DownloadError::Client(_) => ErrorClass::Network,
            DownloadError::Network { .. } => ErrorClass::Network,
            DownloadError::Truncated { .. } => ErrorClass::Network,
            DownloadError::Status { .. } => ErrorClass::HttpStatus,
            DownloadError::Disk { .. } => ErrorClass::Disk,
        }
    }

    /// Whether retrying the whole transfer might help.
    pub fn is_transient(&self) -> (yes: bool)
        ensures
            yes == transient(*self),
    {
        match self {
            DownloadError::Network { .. } => true,
            DownloadError::Truncated { .. } => true,
            DownloadError::Status { status, .. } => *status >= 500,
            DownloadError::Client(_) => false,
            DownloadError::Disk { .. } => false,
        }
    }

    /// Whether to retry after this failure, given how often that was done.
    pub fn should_retry(&self, retries: u32) -> (yes: bool)
        ensures
            yes == (transient(*self) && retries < MAX_RETRIES),
    {
        self.is_transient() && retries < MAX_RETRIES
    }

    /// The message shown to people.
    pub fn to_string(&self) -> (text: String)
        ensures
            text@ == download_error_text(*self),
    {
        match self {
            DownloadError::Client(reason) => {
                let mut text = "failed to build download client: ".to_owned();
                text.append(reason.as_str());
                text
            },
            DownloadError::Network { url, reason } => {
                let mut text = "network failure downloading ".to_owned();
                text.append(url.as_str());
                text.append(": ");
                text.append(reason.as_str());
                text
            },
            DownloadError::Status { status, url } => {
                let mut text = "upstream returned HTTP ".to_owned();
                text.append(decimal_text(*status as u64).as_str());
                text.append(" for ");
                text.append(url.as_str());
                text
            },
            DownloadError::Truncated { url, expected, actual } => {
                let mut text = "transfer of ".to_owned();
                text.append(url.as_str());
                text.append(" truncated: expected ");
                text.append(decimal_text(*expected).as_str());
                text.append(" bytes, got ");
                text.append(decimal_text(*actual).as_str());
                text
            },
            DownloadError::Disk { path, reason } => {
                let mut text = "disk I/O failed for ".to_owned();
                text.append(path.as_str());
                text.append(": ");
                text.append(reason.as_str());
                text
            },
        }
    }
}

/// Failures of the local disk are never retried, and a retried failure is
/// never one of the local disk.
pub proof fn law_disk_failures_are_final(error: DownloadError)
    ensures
        download_class(error) is Disk ==> !transient(error),
        transient(error) ==> download_class(error) is Network || download_class(
            error,
        ) is HttpStatus,
{
}

/// What a finished download amounts to.
#[derive(Debug)]
pub struct Downloaded {
    /// Verified size in bytes.
    pub bytes: u64,
    /// blake3 digest, computed while streaming.
    pub blake3: Digest,
    /// MIME type: the response's when it is audio, else the provider's.
    pub mime: Option<AudioMime>,
}

/// A transfer in flight.
pub struct Transfer {
    shown: RedactedUrl,
    expected: Option<u64>,
    written: u64,
    stream: HashStream,
    mime: Option<AudioMime>,
}

/// Whether `mime` is the type of a transfer: the response's content type
/// when that is audio, else what the provider predicted.
pub open spec fn transfer_mime(
    mime: Option<AudioMime>,
    content_type: Option<String>,
    predicted: Option<AudioMime>,
) -> bool {
    match content_type {
        Some(text) => if "audio/"@.is_prefix_of(text@) {
            mime matches Some(mime) && crate::domain::mime_reads(mime, text@)
        } else {
            mime == predicted
        },
        None => mime == predicted,
    }
}

impl Transfer {
    /// The bytes that arrived so far.
    pub closed spec fn received(self) -> Seq<u8> {
        self.stream@
    }

    /// The number of bytes promised.
    pub closed spec fn promised(self) -> Option<u64> {
        self.expected
    }

    /// The URL as it may be shown.
    pub closed spec fn shown_url(self) -> Seq<char> {
        self.shown@
    }

    /// The type the file will have.
    pub closed spec fn file_mime(self) -> Option<AudioMime> {
        self.mime
    }

    /// The count agrees with what arrived.
    pub closed spec fn wf(self) -> bool {
        self.written == self.stream@.len()
    }

    /// A response arrived. A non-success status fails the attempt; a
    /// promised length is the response's, else the provider's.
    pub fn begin(
        source: &AudioSource,
        status: u16,
        content_length: Option<u64>,
        content_type: Option<String>,
    ) -> (transfer: Result<Transfer, DownloadError>)
        ensures
            match transfer {
                Ok(transfer) => {
                    &&& 200 <= status < 300
                    &&& transfer.wf()
                    &&& transfer.received().len() == 0
                    &&& transfer.promised() == crate::config::or_else_of(
                        content_length,
                        source.bytes,
                    )
                    &&& transfer.shown_url() == crate::domain::redacted_text(source.url@)
                    &&& transfer_mime(transfer.file_mime(), content_type, source.mime)
                },
                Err(error) => !(200 <= status < 300) && (error matches DownloadError::Status {
                    status: s,
                    url,
                } && s == status && url@ == crate::domain::redacted_text(source.url@)),
            },
    {
        let shown = redacted(&source.url);
        if status < 200 || status >= 300 {
            return Err(DownloadError::Status { status, url: shown });
        }
        let expected = match content_length {
            Some(n) => Some(n),
            None => source.bytes,
        };
        let predicted = match &source.mime {
            Some(mime) => Some(mime.clone()),
            None => None,
        };
        let mime = match &content_type {
            Some(text) => {
                if begins_with(text.as_str(), "audio/") {
                    Some(AudioMime::from(text.as_str()))
                } else {
                    predicted
                }
            },
            None => predicted,
        };
        Ok(Transfer { shown, expected, written: 0, stream: HashStream::new(), mime })
    }

    /// A chunk arrived. Returns the progress: bytes so far and expected.
    pub fn chunk(&mut self, bytes: &[u8]) -> (progress: (u64, Option<u64>))
        requires
            old(self).wf(),
            old(self).received().len() + bytes@.len() <= u64::MAX,
        ensures
            final(self).wf(),
            final(self).received() == old(self).received() + bytes@,
            final(self).promised() == old(self).promised(),
            final(self).shown_url() == old(self).shown_url(),
            final(self).file_mime() == old(self).file_mime(),
            progress.0 == final(self).received().len(),
            progress.1 == final(self).promised(),
    {
        self.stream.update(bytes);
        self.written = self.written + bytes.len() as u64;
        (self.written, self.expected)
    }

    /// The connection broke.
    pub fn broken(&self, reason: String) -> (error: DownloadError)
        ensures
            error matches DownloadError::Network { url, reason: r } && url@ == self.shown_url()
                && r == reason,
    {
        DownloadError::Network { url: self.shown.clone(), reason }
    }

    /// The body ended. The transfer stands only if exactly the promised
    /// bytes arrived, where any were promised.
    pub fn finish(self) -> (downloaded: Result<Downloaded, DownloadError>)
        requires
            self.wf(),
        ensures
            match downloaded {
                Ok(downloaded) => {
                    &&& self.promised() matches Some(n) ==> n == self.received().len()
                    &&& downloaded.bytes == self.received().len()
                    &&& downloaded.blake3@ == crate::digest::blake3_hex(self.received())
                    &&& downloaded.mime == self.file_mime()
                },
                Err(error) => {
                    &&& self.promised() matches Some(n) && n != self.received().len()
                    &&& error matches DownloadError::Truncated { url, expected, actual } && url@
                        == self.shown_url() && Some(expected) == self.promised() && actual
                        == self.received().len()
                },
            },
    {
        match self.expected {
            Some(expected) => {
                if self.written != expected {
                    return Err(
                        DownloadError::Truncated {
                            url: self.shown,
                            expected,
                            actual: self.written,
                        },
                    );
                }
            },
            None => {},
        }
        Ok(Downloaded { bytes: self.written, blake3: self.stream.finish(), mime: self.mime })
    }
}

/// A probed duration worth recording: positive and within range.
pub fn probe_duration(secs: u64) -> (duration: Option<u32>)
    ensures
        duration == if 0 < secs <= u32::MAX {
            Some(secs as u32)
        } else {
            None
        },
{
    if 0 < secs && secs <= u32::MAX as u64 {
        Some(secs as u32)
    } else {
        None
    }
}

/// A failed download is of the kind it failed with: the disk, a status, or
/// else the network.
pub proof fn law_download_failures_have_a_kind(error: DownloadError)
    ensures
        download_class(error) == ErrorClass::Disk <==> error is Disk,
        download_class(error) == ErrorClass::HttpStatus <==> error is Status,
        download_class(error) == ErrorClass::Network <==> error is Network || error is Truncated
            || error is Client,
{
}

/// What may go away by itself is tried again, twice at most: a broken or
/// truncated transfer, and a status that blames the server. Nothing else is.
pub proof fn law_which_failures_are_retried(error: DownloadError)
    ensures
        transient(error) <==> error is Network || error is Truncated || (
        error matches DownloadError::Status { status, .. } && status >= 500),
        MAX_RETRIES == 2,
{
}

/// A file is of the type that its transfer says, where that is an audio
/// type, and of the predicted type otherwise.
pub proof fn law_transfers_tell_the_type(
    mime: Option<AudioMime>,
    rest: Seq<char>,
    content_type: Option<String>,
    predicted: Option<AudioMime>,
)
    requires
        transfer_mime(mime, content_type, predicted),
    ensures
        content_type is None ==> mime == predicted,
        content_type matches Some(text) ==> (text@ == "audio/"@ + rest ==> (mime matches Some(own)
            && own@ == crate::domain::mime_of(text@))),
        content_type matches Some(text) ==> (text@.len() < 6 || text@[0] != 'a' || text@[5] != '/'
            ==> mime == predicted),
{
    reveal_strlit("audio/");
    match content_type {
        Some(text) => {
            let audio = "audio/"@ + rest;
            assert("audio/"@ =~= audio.subrange(0, "audio/"@.len() as int));
            if "audio/"@.is_prefix_of(text@) {
                let head = text@.subrange(0, "audio/"@.len() as int);
                assert(head[0] == text@[0] && head[5] == text@[5]);
            }
        },
        None => {},
    }
}

/// What is said of a download that failed: which URL or file, and why.
pub proof fn law_download_errors_say_why(error: DownloadError)
    ensures
        error matches DownloadError::Client(reason) ==> download_error_text(error)
            == "failed to build download client: "@ + reason@,
        error matches DownloadError::Network { url, reason } ==> download_error_text(error)
            == "network failure downloading "@ + url@ + ": "@ + reason@,
        error matches DownloadError::Status { status, url } ==> download_error_text(error)
            == "upstream returned HTTP "@ + crate::text::decimal(status as nat) + " for "@ + url@,
        error matches DownloadError::Truncated { url, expected, actual } ==> download_error_text(
            error,
        ) == "transfer of "@ + url@ + " truncated: expected "@ + crate::text::decimal(
            expected as nat,
        ) + " bytes, got "@ + crate::text::decimal(actual as nat),
        error matches DownloadError::Disk { path, reason } ==> download_error_text(error)
            == "disk I/O failed for "@ + path@ + ": "@ + reason@,
{
}

} // verus!
