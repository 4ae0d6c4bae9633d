//! Shared-memory video frame ring — producer side (media-daemon).
//!
//! The ring has `N_SLOTS` frame slots and a header with a write index (the
//! producer's count of published frames) and a read index (the consumer's
//! count of consumed frames).  Frame `i` lives in slot `i % N_SLOTS`.  The
//! producer refuses a frame when it is `N_SLOTS` frames ahead of the reader,
//! so it never overwrites a slot the consumer has not read yet.
//!
//! This type holds the ring's contents and makes every decision; the
//! application mirrors it into the POSIX shared memory region that
//! ai-daemon maps.

use vstd::prelude::*;
use vstd::slice::*;

verus! {

pub const N_SLOTS: usize = 8;

/// NV12 at 1080p.
pub const FRAME_MAX_BYTES: usize = 1920 * 1080 * 3 / 2;

/// Header at the start of the shared memory region.
#[derive(Debug, Clone, Copy, PartialEq, Eq, Structural)]
pub struct ShmHeader {
    pub write_idx: u32,
    pub read_idx: u32,
}

/// One frame slot in the ring.  `data` is the slot's fixed buffer of
/// `FRAME_MAX_BYTES` bytes, of which the first `size` hold the frame; the
/// bytes past them keep whatever an earlier frame left there.
#[derive(Debug)]
pub struct ShmSlot {
    pub width: u32,
    pub height: u32,
    pub stride: u32,
    pub size: u32,
    pub timestamp_us: u64,
    pub data: Vec<u8>,
}

/// The producer end of the ring.
pub struct ShmRingProducer {
    header: ShmHeader,
    slots: Vec<ShmSlot>,
}

/// How many frames the writer is ahead of the reader, as the producer
/// computes it: the difference of the two indices widened to `usize`, with
/// `usize` wrap-around.
pub open spec fn spec_frames_ahead(write_idx: u32, read_idx: u32) -> usize {
    vstd::wrapping::usize_specs::wrapping_sub(write_idx as usize, read_idx as usize)
}

/// The ring is full when the writer is `N_SLOTS` or more frames ahead.
pub open spec fn spec_ring_full(write_idx: u32, read_idx: u32) -> bool {
    spec_frames_ahead(write_idx, read_idx) >= N_SLOTS
}

/// The slot that a write lands in, or `None` when the ring is full.
pub open spec fn spec_write_slot(write_idx: u32, read_idx: u32) -> Option<usize> {
    if spec_ring_full(write_idx, read_idx) {
        None
    } else {
        Some(((write_idx as usize) % N_SLOTS) as usize)
    }
}

/// The header after a write that the producer accepted: the write index
/// moves on by one, wrapping at `u32::MAX`.
pub open spec fn spec_header_after_write(h: ShmHeader) -> ShmHeader {
    ShmHeader {
        write_idx: vstd::wrapping::u32_specs::wrapping_add(h.write_idx, 1),
        read_idx: h.read_idx,
    }
}

/// The header after the consumer read one slot: the read index moves on by
/// one, wrapping at `u32::MAX`.
pub open spec fn spec_header_after_read(h: ShmHeader) -> ShmHeader {
    ShmHeader {
        write_idx: h.write_idx,
        read_idx: vstd::wrapping::u32_specs::wrapping_add(h.read_idx, 1),
    }
}

/// The number of bytes of a frame of `len` bytes that fit in a slot.
pub open spec fn spec_copy_len(len: nat) -> nat {
    if len <= FRAME_MAX_BYTES { len } else { FRAME_MAX_BYTES as nat }
}

/// An empty slot, as a freshly created (zero-filled) region holds it.
pub open spec fn spec_slot_is_empty(s: ShmSlot) -> bool {
    &&& s.width == 0
    &&& s.height == 0
    &&& s.stride == 0
    &&& s.size == 0
    &&& s.timestamp_us == 0
    &&& s.data@ == Seq::new(FRAME_MAX_BYTES as nat, |i: int| 0u8)
}

/// The buffer of a slot after a frame `data` was written into it: the
/// frame's first `spec_copy_len` bytes, then the rest of the old buffer.
pub open spec fn spec_slot_buffer_after(old_buf: Seq<u8>, data: Seq<u8>) -> Seq<u8> {
    let n = spec_copy_len(data.len()) as int;
    data.subrange(0, n) + old_buf.subrange(n, FRAME_MAX_BYTES as int)
}

impl ShmRingProducer {
    /// The ring's shape: `N_SLOTS` slots, each with a buffer of
    /// `FRAME_MAX_BYTES` bytes and a frame size that fits in it.
    pub closed spec fn wf(&self) -> bool {
        &&& self.slots@.len() == N_SLOTS
        &&& forall|i: int|
            0 <= i < N_SLOTS ==> {
                &&& #[trigger] self.slots@[i].data@.len() == FRAME_MAX_BYTES
                &&& self.slots@[i].size <= FRAME_MAX_BYTES
            }
    }

    pub closed spec fn spec_header(&self) -> ShmHeader {
        self.header
    }

    /// The slot at position `i` (`0 <= i < N_SLOTS`).
    pub closed spec fn spec_slot(&self, i: int) -> ShmSlot {
        self.slots@[i]
    }

    /// Creates an empty ring: both indices 0, every slot empty.
    pub fn create() -> (p: Self)
        ensures
            p.wf(),
            p.spec_header() == (ShmHeader { write_idx: 0, read_idx: 0 }),
            forall|i: int| 0 <= i < N_SLOTS ==> spec_slot_is_empty(#[trigger] p.spec_slot(i)),
    {
        let mut slots: Vec<ShmSlot> = Vec::new();
        let mut k: usize = 0;
        while k < N_SLOTS
            invariant
                k <= N_SLOTS,
                slots@.len() == k,
                forall|i: int| 0 <= i < k ==> spec_slot_is_empty(#[trigger] slots@[i]),
            decreases N_SLOTS - k,
        {
            let data: Vec<u8> = vec![0u8; FRAME_MAX_BYTES];
            assert(data@ =~= Seq::new(FRAME_MAX_BYTES as nat, |i: int| 0u8));
            slots.push(
                ShmSlot { width: 0, height: 0, stride: 0, size: 0, timestamp_us: 0, data },
            );
            k = k + 1;
        }
        ShmRingProducer { header: ShmHeader { write_idx: 0, read_idx: 0 }, slots }
    }

    /// The header, for benchmarks and tests.
    pub fn header_for_bench(&self) -> (h: &ShmHeader)
        ensures
            *h == self.spec_header(),
    {
        &self.header
    }

    /// Simulates a consumer reading one slot (advances the read index by 1,
    /// wrapping at `u32::MAX`).  For use in tests and benchmarks only.
    pub fn simulate_consumer_read(&mut self)
        requires
            old(self).wf(),
        ensures
            final(self).wf(),
            final(self).spec_header() == spec_header_after_read(old(self).spec_header()),
            forall|i: int| 0 <= i < N_SLOTS ==> #[trigger] final(self).spec_slot(i) == old(self).spec_slot(i),
    {
        self.header.read_idx = self.header.read_idx.wrapping_add(1);
    }

    /// Records the consumer's read index as read from the shared header.
    pub fn observe_consumer(&mut self, read_idx: u32)
        requires
            old(self).wf(),
        ensures
            final(self).wf(),
            final(self).spec_header() == (ShmHeader { write_idx: old(self).spec_header().write_idx, read_idx }),
            forall|i: int| 0 <= i < N_SLOTS ==> #[trigger] final(self).spec_slot(i) == old(self).spec_slot(i),
    {
        self.header.read_idx = read_idx;
    }

    /// The slot that ring position `idx` maps to (`idx % N_SLOTS`).
    pub fn slot_ptr(&self, idx: usize) -> (s: &ShmSlot)
        requires
            self.wf(),
        ensures
            *s == self.spec_slot(idx as int % N_SLOTS as int),
    {
        &self.slots[idx % N_SLOTS]
    }

    /// Write a frame into the next ring slot: at most `FRAME_MAX_BYTES` of
    /// `data` are kept.  Returns the slot index, or `None` (leaving the ring
    /// untouched) if the consumer is too far behind.
    pub fn write_frame(
        &mut self,
        data: &[u8],
        width: u32,
        height: u32,
        stride: u32,
        timestamp_us: u64,
    ) -> (res: Option<usize>)
        requires
            old(self).wf(),
        ensures
            final(self).wf(),
            res == spec_write_slot(old(self).spec_header().write_idx, old(self).spec_header().read_idx),
            res is None ==> {
                &&& final(self).spec_header() == old(self).spec_header()
                &&& forall|i: int| 0 <= i < N_SLOTS ==> #[trigger] final(self).spec_slot(i) == old(self).spec_slot(i)
            },
            res matches Some(k) ==> {
                let n = spec_copy_len(data@.len());
                let s = final(self).spec_slot(k as int);
                &&& final(self).spec_header() == spec_header_after_write(old(self).spec_header())
                &&& s.width == width
                &&& s.height == height
                &&& s.stride == stride
                &&& s.size == n
                &&& s.timestamp_us == timestamp_us
                &&& s.data@ == spec_slot_buffer_after(old(self).spec_slot(k as int).data@, data@)
                &&& forall|i: int|
                    0 <= i < N_SLOTS && i != k ==> #[trigger] final(self).spec_slot(i) == old(self).spec_slot(i)
            },
    {
        let widx = self.header.write_idx as usize;
        let ridx = self.header.read_idx as usize;

        // Ring is full if we're N_SLOTS ahead of the reader
        if widx.wrapping_sub(ridx) >= N_SLOTS {
            return None;
        }

        let copy_len = if data.len() < FRAME_MAX_BYTES { data.len() } else { FRAME_MAX_BYTES };
        let k = widx % N_SLOTS;
        let mut frame = slice_to_vec(slice_subrange(data, 0, copy_len));
        let mut tail = slice_to_vec(slice_subrange(self.slots[k].data.as_slice(), copy_len, FRAME_MAX_BYTES));
        frame.append(&mut tail);
        self.slots[k] = ShmSlot {
            width,
            height,
            stride,
            size: copy_len as u32,
            timestamp_us,
            data: frame,
        };

        // Publish the write
        self.header.write_idx = self.header.write_idx.wrapping_add(1);
        Some(k)
    }
}

/// What well-formedness tells a caller: every one of the `N_SLOTS` slots
/// has a buffer of exactly `FRAME_MAX_BYTES` bytes, and a frame size that
/// fits in it.
pub proof fn lemma_wf_slot_shape(p: ShmRingProducer)
    requires
        p.wf(),
    ensures
        forall|i: int|
            0 <= i < N_SLOTS ==> {
                &&& (#[trigger] p.spec_slot(i)).data@.len() == FRAME_MAX_BYTES
                &&& p.spec_slot(i).size <= FRAME_MAX_BYTES
            },
{
}

// ── Laws ──────────────────────────────────────────────────────────────────────

/// Starting from an empty ring with no consumer reads, the `k`-th write
/// (counting from 0) lands in slot `k` for every `k < N_SLOTS`, and the
/// write after `N_SLOTS` writes is refused.
pub proof fn lemma_fill_then_full(k: u32)
    requires
        k <= N_SLOTS,
    ensures
        k < N_SLOTS ==> spec_write_slot(k, 0) == Some(k as usize),
        k == N_SLOTS ==> spec_write_slot(k, 0) is None,
{
}

/// A write that the producer accepts never lands on a slot the consumer has
/// not read yet: with reader at `r` and writer at `w` (no index wrap-around),
/// every unread frame `j` (`r <= j < w`) sits in a different slot than the
/// one written.
pub proof fn lemma_write_never_clobbers_unread(w: u32, r: u32, j: int)
    requires
        r <= w,
        spec_write_slot(w, r) is Some,
        r <= j < w,
    ensures
        j % (N_SLOTS as int) != spec_write_slot(w, r)->0 as int,
{
    assert(spec_frames_ahead(w, r) == w - r);
    assert(w - j < N_SLOTS);
    assert(j % 8 != w % 8) by (nonlinear_arith)
        requires
            0 < w - j < 8,
            j >= 0,
    ;
}

/// What a history of the ring is made of: a frame that `write_frame`
/// accepted, or a slot that the consumer read.  (A refused write leaves the
/// header as it was, so it does not count.)
pub ghost enum RingEvent {
    Published,
    Consumed,
}

/// The header after `events`, in order, starting from `h`.
pub open spec fn spec_header_after_events(h: ShmHeader, events: Seq<RingEvent>) -> ShmHeader
    decreases events.len(),
{
    if events.len() == 0 {
        h
    } else {
        let before = spec_header_after_events(h, events.drop_last());
        match events.last() {
            RingEvent::Published => spec_header_after_write(before),
            RingEvent::Consumed => spec_header_after_read(before),
        }
    }
}

/// How many of `events` are `e`.
pub open spec fn spec_event_count(events: Seq<RingEvent>, e: RingEvent) -> nat
    decreases events.len(),
{
    if events.len() == 0 {
        0
    } else {
        spec_event_count(events.drop_last(), e) + if events.last() == e { 1nat } else { 0nat }
    }
}

proof fn lemma_wrapping_add_one_mod(n: nat)
    ensures
        vstd::wrapping::u32_specs::wrapping_add((n % 0x1_0000_0000) as u32, 1) == ((n + 1)
            % 0x1_0000_0000) as u32,
{
    let m: int = 0x1_0000_0000;
    let q = n as int / m;
    let r = n as int % m;
    assert(n as int == q * m + r && 0 <= r < m) by (nonlinear_arith)
        requires
            m > 0,
            q == n as int / m,
            r == n as int % m,
    ;
    if r + 1 < m {
        assert((n + 1) as int % m == r + 1) by (nonlinear_arith)
            requires
                n + 1 == q * m + (r + 1),
                0 <= r + 1 < m,
                m > 0,
        ;
    } else {
        assert((n + 1) as int % m == 0) by (nonlinear_arith)
            requires
                n + 1 == (q + 1) * m,
                m > 0,
        ;
    }
}

/// The header counts the ring's history: from a freshly created ring,
/// after any sequence of accepted writes and consumer reads, in any order,
/// the write index is the number of accepted writes and the read index the
/// number of reads, both modulo 2^32.  With no reads, the next write after
/// `k < N_SLOTS` accepted ones lands in slot `k`, and after `N_SLOTS` of
/// them the next one is refused.
pub proof fn lemma_header_counts_history(events: Seq<RingEvent>)
    ensures
        ({
            let h = spec_header_after_events(ShmHeader { write_idx: 0, read_idx: 0 }, events);
            let w = spec_event_count(events, RingEvent::Published);
            let r = spec_event_count(events, RingEvent::Consumed);
            &&& h.write_idx == (w % 0x1_0000_0000) as u32
            &&& h.read_idx == (r % 0x1_0000_0000) as u32
            &&& (r == 0 && w < N_SLOTS) ==> spec_write_slot(h.write_idx, h.read_idx) == Some(
                w as usize,
            )
            &&& (r == 0 && w == N_SLOTS) ==> spec_write_slot(h.write_idx, h.read_idx) is None
        }),
    decreases events.len(),
{
    let h0 = ShmHeader { write_idx: 0, read_idx: 0 };
    let w = spec_event_count(events, RingEvent::Published);
    let r = spec_event_count(events, RingEvent::Consumed);
    if events.len() > 0 {
        let pre = events.drop_last();
        lemma_header_counts_history(pre);
        let wp = spec_event_count(pre, RingEvent::Published);
        let rp = spec_event_count(pre, RingEvent::Consumed);
        match events.last() {
            RingEvent::Published => {
                lemma_wrapping_add_one_mod(wp);
                assert(w == wp + 1 && r == rp);
            },
            RingEvent::Consumed => {
                lemma_wrapping_add_one_mod(rp);
                assert(w == wp && r == rp + 1);
            },
        }
    }
    let h = spec_header_after_events(h0, events);
    if r == 0 && w <= N_SLOTS {
        assert(w % 0x1_0000_0000 == w);
        lemma_fill_then_full(w as u32);
    }
}

} // verus!
