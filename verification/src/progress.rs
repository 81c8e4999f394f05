//! Progress accounting for the decompression byte stream.
//!
//! The pipeline wraps its raw input stream so that every read is
//! counted and, at most once per elapsed second, a status report is
//! produced. The reads and the clock live outside the verified
//! library; this module holds the counters and the emission decision.

use vstd::prelude::*;

verus! {

/// A status report derived from the byte counters: how many bytes have
/// been read so far, the total expected, and the bytes consumed since
/// the previous report together with the seconds they took (so a
/// caller can display a rate and a percentage).
pub struct ProgressReport {
    pub bytes_read: u64,
    pub total_size: u64,
    pub bytes_delta: u64,
    pub elapsed_secs: u64,
}

/// Byte counters for the progress-tracked stream that feeds the
/// decompressor. The caller forwards each read's byte count here and
/// emits the returned report, if any.
pub struct ZstdStreamWithProgress {
    /// Bytes read from the underlying stream since construction.
    pub bytes_read: u64,
    /// Value of `bytes_read` when the last report was produced.
    pub bytes_read_last: u64,
    /// Total size of the underlying stream, for percentage display.
    pub total_size: u64,
}

impl ZstdStreamWithProgress {
    /// Fresh counters for a stream of `total_size` bytes.
    pub fn new(total_size: u64) -> (s: Self)
        ensures
            s.bytes_read == 0,
            s.bytes_read_last == 0,
            s.total_size == total_size,
    {
        ZstdStreamWithProgress { bytes_read: 0, bytes_read_last: 0, total_size }
    }

    /// Account for one read of `n` bytes, `elapsed_secs` whole seconds
    /// after the last report. A report is due exactly when at least a
    /// second has passed; producing one resets the delta baseline.
    pub fn record_read(&mut self, n: u64, elapsed_secs: u64) -> (r: Option<ProgressReport>)
        requires
            old(self).bytes_read + n <= u64::MAX,
            old(self).bytes_read_last <= old(self).bytes_read,
        ensures
            final(self).bytes_read == old(self).bytes_read + n,
            final(self).total_size == old(self).total_size,
            elapsed_secs >= 1 <==> r is Some,
            r matches Some(rep) ==> {
                &&& rep.bytes_read == final(self).bytes_read
                &&& rep.total_size == old(self).total_size
                &&& rep.bytes_delta == final(self).bytes_read - old(self).bytes_read_last
                &&& rep.elapsed_secs == elapsed_secs
                &&& final(self).bytes_read_last == final(self).bytes_read
            },
            r is None ==> final(self).bytes_read_last == old(self).bytes_read_last,
    {
        self.bytes_read = self.bytes_read + n;
        if elapsed_secs >= 1 {
            let rep = ProgressReport {
                bytes_read: self.bytes_read,
                total_size: self.total_size,
                bytes_delta: self.bytes_read - self.bytes_read_last,
                elapsed_secs,
            };
            self.bytes_read_last = self.bytes_read;
            Some(rep)
        } else {
            None
        }
    }
}

} // verus!
