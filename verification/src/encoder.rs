//! H.264 encoding via Rockchip MPP (Media Process Platform): the segment
//! bookkeeping of the encoder.  The MPP context lives in the application,
//! which hands each frame to `MppEncoder::encode_frame` and receives a
//! complete one-minute segment every `fps * 60` frames.

use vstd::prelude::*;
use crate::capture::RawFrame;
use crate::encoder_gstreamer::{SegmentAssembler, SEGMENT_SECS};
pub use crate::encoder_common::EncodedSegment;

verus! {

/// Pre-allocation of the segment buffer: 64 MiB.
pub const SEGMENT_BUF_CAP: usize = 64 * 1024 * 1024;

pub struct MppEncoder {
    segments: SegmentAssembler,
}

impl MppEncoder {
    pub closed spec fn view(&self) -> crate::encoder_gstreamer::AssemblerView {
        self.segments.view()
    }

    /// Encoder state for `width`×`height` frames at `fps` frames per second
    /// and `bitrate_kbps`: 60-second segments of `fps * 60` frames.
    pub fn new(width: u32, height: u32, fps: u32, bitrate_kbps: u32) -> (e: Self)
        requires
            fps * SEGMENT_SECS <= u32::MAX,
        ensures
            e.view() == crate::encoder_gstreamer::spec_fresh((fps * SEGMENT_SECS) as u32),
    {
        MppEncoder { segments: SegmentAssembler::with_capacity(fps, SEGMENT_BUF_CAP) }
    }

    /// Counts one encoded frame. Returns a completed segment when the
    /// segment duration has elapsed, otherwise returns None.  The frame's
    /// timestamp starts and ends segments; the pixel data is not added to
    /// the segment.
    pub fn encode_frame(&mut self, frame: &RawFrame, pixel_data: &[u8]) -> (seg: Option<EncodedSegment>)
        requires
            crate::encoder_gstreamer::spec_assembler_inv(old(self).view()),
        ensures
            crate::encoder_gstreamer::spec_assembler_inv(final(self).view()),
            (final(self).view(), match seg {
                Some(s) => Some(crate::encoder_gstreamer::segment_view(s)),
                None => None,
            }) == crate::encoder_gstreamer::spec_push(old(self).view(), Seq::empty(), frame.timestamp_us),
    {
        let no_data: [u8; 0] = [];
        self.segments.push(no_data.as_slice(), frame.timestamp_us)
    }
}

} // verus!
