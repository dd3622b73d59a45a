//! Downloading the rerank model: where it comes from and goes, when a download is skipped,
//! and when progress is reported while the bytes arrive.
use vstd::prelude::*;

verus! {

/// Where the rerank model is downloaded from.
pub const RERANK_MODEL_DOWNLOAD_URL: &'static str =
    "https://huggingface.co/gpustack/gte-multilingual-reranker-base-GGUF/resolve/main/gte-multilingual-reranker-base-FP16.gguf";

/// The file name of the rerank model.
pub const RERANK_MODEL_FILE_NAME: &'static str = "gte-multilingual-reranker-base-FP16.gguf";

/// The directory, under the models folder, that holds the rerank model.
pub const RERANK_MODEL_DIR_NAME: &'static str = "gte-multilingual-reranker-base";

/// The name of the event that carries download progress.
pub const RERANK_DOWNLOAD_PROGRESS_EVENT: &'static str = "rerank_model_download_progress";

/// Progress is reported each time this many more bytes have arrived.
pub const PROGRESS_EMIT_STEP: u64 = 4194304;

/// How far a download has come.
pub struct RerankDownloadProgress {
    pub downloaded: u64,
    pub total: u64,
    pub done: bool,
    pub path: Option<String>,
}

/// A file already in place with this many bytes (none when there is no file) is used as it
/// is: a download is needed only where there is no such file or it is empty.
pub fn download_needed(existing_len: Option<u64>) -> (r: bool)
    ensures
        r == !(existing_len matches Some(n) && n > 0),
{
    match existing_len {
        Some(n) => n == 0,
        None => true,
    }
}

/// The progress reported for a file that is already in place.
pub fn already_downloaded(len: u64, path: String) -> (r: RerankDownloadProgress)
    ensures
        r.downloaded == len,
        r.total == len,
        r.done,
        r.path matches Some(p) && p@ == path@,
{
    RerankDownloadProgress { downloaded: len, total: len, done: true, path: Some(path) }
}

/// Counts the bytes of a download and decides when progress is reported.
pub struct DownloadMeter {
    downloaded: u64,
    last_reported: u64,
}

impl DownloadMeter {
    /// Bytes received so far.
    pub closed spec fn received(self) -> nat {
        self.downloaded as nat
    }

    /// Bytes received when progress was last reported.
    pub closed spec fn reported(self) -> nat {
        self.last_reported as nat
    }

    /// Progress was reported at most a step ago: fewer than a step of bytes has arrived since.
    pub open spec fn wf(self) -> bool {
        self.reported() <= self.received() && self.received() - self.reported() < PROGRESS_EMIT_STEP
    }

    /// A meter for a download that has not started.
    pub fn new() -> (r: Self)
        ensures
            r.received() == 0,
            r.reported() == 0,
            r.wf(),
    {
        DownloadMeter { downloaded: 0, last_reported: 0 }
    }

    pub fn downloaded(&self) -> (r: u64)
        ensures
            r == self.received(),
    {
        self.downloaded
    }

    /// Counts a piece of `len` bytes; gives whether progress is to be reported now, which is
    /// when a step or more has arrived since it was last reported.
    pub fn record_chunk(&mut self, len: u64) -> (report: bool)
        requires
            old(self).wf(),
            old(self).received() + len <= u64::MAX,
        ensures
            final(self).wf(),
            final(self).received() == old(self).received() + len,
            report == (final(self).received() - old(self).reported() >= PROGRESS_EMIT_STEP),
            final(self).reported() == if report { final(self).received() } else { old(self).reported() },
    {
        self.downloaded = self.downloaded + len;
        if self.downloaded - self.last_reported >= PROGRESS_EMIT_STEP {
            self.last_reported = self.downloaded;
            true
        } else {
            false
        }
    }

    /// The progress to report while the download goes on.
    pub fn progress(&self, total: u64) -> (r: RerankDownloadProgress)
        ensures
            r.downloaded == self.received(),
            r.total == total,
            !r.done,
            r.path is None,
    {
        RerankDownloadProgress { downloaded: self.downloaded, total, done: false, path: None }
    }

    /// The progress to report once the file is in place: the total is at least what arrived.
    pub fn finished(&self, total: u64, path: String) -> (r: RerankDownloadProgress)
        ensures
            r.downloaded == self.received(),
            r.total == if total >= self.received() { total as nat } else { self.received() },
            r.done,
            r.path matches Some(p) && p@ == path@,
    {
        let total = if total >= self.downloaded { total } else { self.downloaded };
        RerankDownloadProgress { downloaded: self.downloaded, total, done: true, path: Some(path) }
    }
}

} // verus!
