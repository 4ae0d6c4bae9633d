//! Camera frame descriptors and frame timestamps.
//!
//! The V4L2 capture loop itself runs in the application; each frame it
//! dequeues is written to the shared-memory ring (`crate::shm`) and described
//! to the encoder by a `RawFrame`.

use vstd::prelude::*;
use crate::shm::{ShmRingProducer, N_SLOTS};

verus! {

/// Lightweight frame descriptor sent to the encoder thread.
/// The actual pixel data lives in the shared memory ring slot.
#[derive(Debug)]
pub struct RawFrame {
    pub width: u32,
    pub height: u32,
    pub stride: u32,
    pub size: usize,
    pub timestamp_us: u64,
    /// Index of the shm ring slot holding the raw pixel data.
    /// ai-daemon reads from the same slot via the consumer API.
    pub shm_slot: usize,
}

pub struct CaptureConfig {
    pub width: u32,
    pub height: u32,
}

/// Microseconds in a second.
pub const US_PER_SEC: u64 = 1_000_000;

/// A driver timestamp of `sec` seconds and `usec` microseconds, in microseconds.
pub fn timestamp_us(sec: u64, usec: u64) -> (ts: u64)
    requires
        sec * US_PER_SEC + usec <= u64::MAX,
    ensures
        ts == sec * US_PER_SEC + usec,
{
    sec * US_PER_SEC + usec
}

/// One dequeued camera buffer: writes it into the shared-memory ring for
/// ai-daemon and describes it for the encoder.  When ai-daemon is falling
/// behind (ring full) the frame is dropped rather than blocking, and `None`
/// is returned.
pub fn publish_frame(
    ring: &mut ShmRingProducer,
    buf: &[u8],
    width: u32,
    height: u32,
    stride: u32,
    ts_us: u64,
) -> (raw: Option<RawFrame>)
    requires
        old(ring).wf(),
    ensures
        final(ring).wf(),
        raw is Some <==> crate::shm::spec_write_slot(
            old(ring).spec_header().write_idx,
            old(ring).spec_header().read_idx,
        ) is Some,
        raw is None ==> {
            &&& final(ring).spec_header() == old(ring).spec_header()
            &&& forall|i: int|
                0 <= i < N_SLOTS ==> #[trigger] final(ring).spec_slot(i) == old(ring).spec_slot(i)
        },
        raw matches Some(f) ==> {
            let n = crate::shm::spec_copy_len(buf@.len());
            let s = final(ring).spec_slot(f.shm_slot as int);
            &&& Some(f.shm_slot) == crate::shm::spec_write_slot(
                old(ring).spec_header().write_idx,
                old(ring).spec_header().read_idx,
            )
            &&& f.width == width
            &&& f.height == height
            &&& f.stride == stride
            &&& f.size == buf@.len()
            &&& f.timestamp_us == ts_us
            // The frame itself went into the ring slot the descriptor names.
            &&& final(ring).spec_header() == crate::shm::spec_header_after_write(old(ring).spec_header())
            &&& s.width == width
            &&& s.height == height
            &&& s.stride == stride
            &&& s.size == n
            &&& s.timestamp_us == ts_us
            &&& s.data@ == crate::shm::spec_slot_buffer_after(old(ring).spec_slot(f.shm_slot as int).data@, buf@)
            &&& forall|i: int|
                0 <= i < N_SLOTS && i != f.shm_slot ==> #[trigger] final(ring).spec_slot(i)
                    == old(ring).spec_slot(i)
        },
{
    match ring.write_frame(buf, width, height, stride, ts_us) {
        Some(slot) => Some(
            RawFrame { width, height, stride, size: buf.len(), timestamp_us: ts_us, shm_slot: slot },
        ),
        None => None,
    }
}

} // verus!
