//! Types shared between both encoder backends.

use vstd::prelude::*;

verus! {

/// `a * b`, clamped to `u64::MAX` when the product does not fit.
pub open spec fn spec_saturating_mul(a: u64, b: u64) -> u64 {
    if a * b > u64::MAX { u64::MAX } else { (a * b) as u64 }
}

/// Multiplies two `u64`, saturating at `u64::MAX`.
pub fn saturating_mul_u64(a: u64, b: u64) -> (r: u64)
    ensures
        r == spec_saturating_mul(a, b),
{
    match a.checked_mul(b) {
        Some(p) => p,
        None => u64::MAX,
    }
}

/// One complete loop-recording segment (~60s of H.264 NAL units).
pub struct EncodedSegment {
    pub data: Vec<u8>,
    pub start_ts_us: u64,
    pub end_ts_us: u64,
    pub frame_count: u32,
}

impl EncodedSegment {
    /// Duration in microseconds: `end - start`, or 0 when the end lies before the start.
    pub open spec fn spec_duration_us(&self) -> u64 {
        if self.end_ts_us >= self.start_ts_us {
            (self.end_ts_us - self.start_ts_us) as u64
        } else {
            0
        }
    }

    /// Average bitrate in bits per second, with the byte-to-bit and second
    /// conversions saturating at `u64::MAX`; 0 for a segment of zero duration.
    pub open spec fn spec_avg_bitrate_bps(&self) -> u64 {
        let dur = self.spec_duration_us();
        if dur == 0 {
            0
        } else {
            (spec_saturating_mul(spec_saturating_mul(self.data@.len() as u64, 8), 1_000_000)
                / dur) as u64
        }
    }

    /// Duration of the segment in microseconds.
    pub fn duration_us(&self) -> (d: u64)
        ensures
            d == self.spec_duration_us(),
    {
        self.end_ts_us.saturating_sub(self.start_ts_us)
    }

    /// Size of the encoded data in bytes.
    pub fn size_bytes(&self) -> (n: usize)
        ensures
            n == self.data@.len(),
    {
        self.data.len()
    }

    /// Average bitrate in bits per second.
    /// Returns 0 if duration is zero.
    pub fn avg_bitrate_bps(&self) -> (bps: u64)
        ensures
            bps == self.spec_avg_bitrate_bps(),
    {
        let dur_us = self.duration_us();
        if dur_us == 0 {
            return 0;
        }
        let bits = saturating_mul_u64(self.data.len() as u64, 8);
        saturating_mul_u64(bits, 1_000_000) / dur_us
    }
}

} // verus!
