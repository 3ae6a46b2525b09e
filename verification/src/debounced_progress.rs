//! Progress reporting for a file being written: the first write is reported at
//! once, later writes at most every 50 ms, flushes and shutdowns always, and a
//! final completion report when the writer goes away.
//!
//! The writer itself (an async I/O wrapper) stays with the caller, which asks
//! [`DebouncedProgressTrackingWriter`] whether and what to report. Times are
//! milliseconds on a monotonic clock, supplied by the caller.

use vstd::prelude::*;

verus! {

/// A progress report for a file being written.
#[derive(Debug, Clone)]
pub struct WriteProgress {
    /// Path of the file
    pub path: String,
    /// Bytes written so far
    pub bytes_downloaded: u64,
    /// Total bytes expected
    pub total_bytes: u64,
    /// Whether the file is complete (otherwise it is downloading)
    pub completed: bool,
}

/// Progress bookkeeping of a file being written.
#[derive(Debug, Clone)]
pub struct DebouncedProgressTrackingWriter {
    /// Path of the file being written
    pub file_path: String,
    /// Total expected bytes (0 if unknown)
    pub total_bytes: u64,
    /// Bytes written so far
    pub bytes_written: u64,
    /// Time of the last report
    pub last_update_ms: Option<u64>,
    /// Minimum time between two reports
    pub update_interval_ms: u64,
}

/// The report of the current progress: complete once the (nonzero) total is written.
pub open spec fn report_of(w: DebouncedProgressTrackingWriter, r: WriteProgress) -> bool {
    &&& r.path@ == w.file_path@
    &&& r.bytes_downloaded == w.bytes_written
    &&& r.total_bytes == w.total_bytes
    &&& r.completed == (w.bytes_written >= w.total_bytes && w.total_bytes > 0)
}

impl DebouncedProgressTrackingWriter {
    /// Track a file of `total_bytes` (0 if unknown); reports at most every 50 ms.
    pub fn new(file_path: String, total_bytes: u64) -> (w: Self)
        ensures
            w.file_path == file_path,
            w.total_bytes == total_bytes,
            w.bytes_written == 0,
            w.last_update_ms is None,
            w.update_interval_ms == 50,
    {
        DebouncedProgressTrackingWriter {
            file_path,
            total_bytes,
            bytes_written: 0,
            last_update_ms: None,
            update_interval_ms: 50,
        }
    }

    /// Bytes written so far.
    pub fn bytes_written(&self) -> (n: u64)
        ensures
            n == self.bytes_written,
    {
        self.bytes_written
    }

    /// Total expected bytes.
    pub fn total_bytes(&self) -> (n: u64)
        ensures
            n == self.total_bytes,
    {
        self.total_bytes
    }

    /// Set the total expected bytes.
    pub fn set_total_bytes(&mut self, total_bytes: u64)
        ensures
            *final(self) == (DebouncedProgressTrackingWriter { total_bytes, ..*old(self) }),
    {
        self.total_bytes = total_bytes;
    }

    /// Report the progress at `now_ms` when forced, on the first report, or once
    /// the interval has passed since the last report.
    pub fn send_progress_update(&mut self, force_send: bool, now_ms: u64) -> (r: Option<WriteProgress>)
        ensures
            ({
                let due = force_send || match old(self).last_update_ms {
                    None => true,
                    Some(t) => crate::orchestration::elapsed_ms(now_ms, t) >= old(self).update_interval_ms,
                };
                &&& r is Some == due
                &&& (r matches Some(p) ==> report_of(*old(self), p))
                &&& *final(self) == if due {
                    DebouncedProgressTrackingWriter { last_update_ms: Some(now_ms), ..*old(self) }
                } else {
                    *old(self)
                }
            }),
    {
        let due = force_send || match self.last_update_ms {
            None => true,
            Some(t) => now_ms.saturating_sub(t) >= self.update_interval_ms,
        };
        if due {
            let report = WriteProgress {
                path: self.file_path.clone(),
                bytes_downloaded: self.bytes_written,
                total_bytes: self.total_bytes,
                completed: self.bytes_written >= self.total_bytes && self.total_bytes > 0,
            };
            self.last_update_ms = Some(now_ms);
            Some(report)
        } else {
            None
        }
    }

    /// Record `written` more bytes at `now_ms` and report them when due: the first
    /// write at once, later writes only once the interval has passed since the
    /// last report.
    pub fn record_write(&mut self, written: u64, now_ms: u64) -> (r: Option<WriteProgress>)
        requires
            old(self).bytes_written + written <= u64::MAX,
        ensures
            r is Some == match old(self).last_update_ms {
                None => true,
                Some(t) => crate::orchestration::elapsed_ms(now_ms, t) >= old(self).update_interval_ms,
            },
            *final(self) == (DebouncedProgressTrackingWriter {
                bytes_written: (old(self).bytes_written + written) as u64,
                last_update_ms: if r is Some { Some(now_ms) } else { old(self).last_update_ms },
                ..*old(self)
            }),
            r matches Some(p) ==> report_of(*final(self), p),
    {
        self.bytes_written = self.bytes_written + written;
        let is_first_write = self.last_update_ms.is_none();
        self.send_progress_update(is_first_write, now_ms)
    }

    /// The completion report sent when the writer goes away: when anything was
    /// written, the file is complete with a total of at least the bytes written.
    pub fn final_report(&self) -> (r: Option<WriteProgress>)
        ensures
            r is Some == (self.bytes_written > 0),
            r matches Some(p) ==> p.path@ == self.file_path@ && p.bytes_downloaded == self.bytes_written
                && p.total_bytes == (if self.bytes_written >= self.total_bytes {
                self.bytes_written
            } else {
                self.total_bytes
            }) && p.completed,
    {
        if self.bytes_written > 0 {
            let total = if self.bytes_written >= self.total_bytes {
                self.bytes_written
            } else {
                self.total_bytes
            };
            Some(
                WriteProgress {
                    path: self.file_path.clone(),
                    bytes_downloaded: self.bytes_written,
                    total_bytes: total,
                    completed: true,
                },
            )
        } else {
            None
        }
    }
}

/// Create a tracker for a file of `total_bytes` (0 if unknown).
pub fn create_progress_tracking_writer(file_path: String, total_bytes: u64) -> (w: DebouncedProgressTrackingWriter)
    ensures
        w.file_path == file_path,
        w.total_bytes == total_bytes,
        w.bytes_written == 0,
        w.last_update_ms is None,
        w.update_interval_ms == 50,
{
    DebouncedProgressTrackingWriter::new(file_path, total_bytes)
}

} // verus!
