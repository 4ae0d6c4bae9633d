//! Loop recording bookkeeping: segment naming, storage accounting, eviction
//! of the oldest segments, pre-roll tagging and the choice of segments that
//! are preserved as collision evidence.
//!
//! The file operations themselves (create, fsync, remove, copy) are done by
//! the application, which asks this module what to do at each step.

use vstd::prelude::*;
use crate::encoder_common::EncodedSegment;
use std::collections::VecDeque;
use vstd::slice::*;

verus! {

// ── Decimal file-name components ──────────────────────────────────────────────

/// ASCII decimal digits of `n`, without leading zeros.
pub open spec fn spec_decimal(n: nat) -> Seq<u8>
    decreases n,
{
    if n < 10 {
        seq![(48 + n) as u8]
    } else {
        spec_decimal(n / 10).push((48 + n % 10) as u8)
    }
}

/// ASCII decimal digits of `n`, left-padded with `'0'` to at least `width` digits.
pub open spec fn spec_zero_padded(n: nat, width: nat) -> Seq<u8> {
    let d = spec_decimal(n);
    if d.len() >= width {
        d
    } else {
        Seq::new((width - d.len()) as nat, |i: int| 48u8) + d
    }
}

/// `seg_{idx:08}_{start_ts}.h264`
pub open spec fn spec_segment_file_name(idx: u64, start_ts: u64) -> Seq<u8> {
    seq![115u8, 101u8, 103u8, 95u8] + spec_zero_padded(idx as nat, 8) + seq![95u8] + spec_decimal(
        start_ts as nat,
    ) + seq![46u8, 104u8, 50u8, 54u8, 52u8]
}

/// `clip_{clip_id:08}`
pub open spec fn spec_clip_dir_name(clip_id: u32) -> Seq<u8> {
    seq![99u8, 108u8, 105u8, 112u8, 95u8] + spec_zero_padded(clip_id as nat, 8)
}

/// Appends the decimal digits of `n` to `buf`.
pub(crate) fn push_decimal(buf: &mut Vec<u8>, n: u64)
    ensures
        final(buf)@ == old(buf)@ + spec_decimal(n as nat),
    decreases n,
{
    if n < 10 {
        buf.push(48u8 + n as u8);
    } else {
        push_decimal(buf, n / 10);
        buf.push(48u8 + (n % 10) as u8);
        proof {
            assert(final(buf)@ =~= old(buf)@ + spec_decimal(n as nat));
        }
    }
}

/// Appends the decimal digits of `n`, zero-padded to `width` digits, to `buf`.
fn push_zero_padded(buf: &mut Vec<u8>, n: u64, width: usize)
    ensures
        final(buf)@ == old(buf)@ + spec_zero_padded(n as nat, width as nat),
{
    let mut digits: Vec<u8> = Vec::new();
    push_decimal(&mut digits, n);
    assert(digits@ =~= spec_decimal(n as nat));
    let mut pad: usize = 0;
    let missing: usize = if digits.len() < width { width - digits.len() } else { 0 };
    while pad < missing
        invariant
            pad <= missing,
            buf@ == old(buf)@ + Seq::new(pad as nat, |i: int| 48u8),
        decreases missing - pad,
    {
        buf.push(48u8);
        pad = pad + 1;
        assert(buf@ =~= old(buf)@ + Seq::new(pad as nat, |i: int| 48u8));
    }
    buf.append(&mut digits);
    assert(buf@ =~= old(buf)@ + spec_zero_padded(n as nat, width as nat));
}

/// The file name of segment number `idx` that starts at `start_ts` µs:
/// `seg_{idx:08}_{start_ts}.h264` in ASCII.
pub fn segment_file_name(idx: u64, start_ts: u64) -> (name: Vec<u8>)
    ensures
        name@ == spec_segment_file_name(idx, start_ts),
{
    let mut name: Vec<u8> = Vec::new();
    name.push(115u8);
    name.push(101u8);
    name.push(103u8);
    name.push(95u8);
    push_zero_padded(&mut name, idx, 8);
    name.push(95u8);
    push_decimal(&mut name, start_ts);
    name.push(46u8);
    name.push(104u8);
    name.push(50u8);
    name.push(54u8);
    name.push(52u8);
    assert(name@ =~= spec_segment_file_name(idx, start_ts));
    name
}

/// The directory name under `evidence/` for collision clip `clip_id`:
/// `clip_{clip_id:08}` in ASCII.
pub fn clip_dir_name(clip_id: u32) -> (name: Vec<u8>)
    ensures
        name@ == spec_clip_dir_name(clip_id),
{
    let mut name: Vec<u8> = Vec::new();
    name.push(99u8);
    name.push(108u8);
    name.push(105u8);
    name.push(112u8);
    name.push(95u8);
    push_zero_padded(&mut name, clip_id as u64, 8);
    assert(name@ =~= spec_clip_dir_name(clip_id));
    name
}

// ── Signals shared with the event handler ─────────────────────────────────────

/// Requests that the event handler leaves for the writer: the clip id of a
/// pending collision (0 when none) and a pending flush request.
#[derive(Debug, Clone, Copy, PartialEq, Eq, Structural)]
pub struct WriterSignals {
    pub tagged_clip_id: u32,
    pub flush_requested: bool,
}

impl WriterSignals {
    /// No collision tagged, no flush requested.
    pub fn new() -> (s: Self)
        ensures
            s.tagged_clip_id == 0,
            !s.flush_requested,
    {
        WriterSignals { tagged_clip_id: 0, flush_requested: false }
    }

    /// Takes the pending clip id, leaving 0 behind.
    pub fn take_tagged_clip(&mut self) -> (clip_id: u32)
        ensures
            clip_id == old(self).tagged_clip_id,
            final(self).tagged_clip_id == 0,
            final(self).flush_requested == old(self).flush_requested,
    {
        let clip_id = self.tagged_clip_id;
        self.tagged_clip_id = 0;
        clip_id
    }

    /// Takes the pending flush request, leaving none behind.
    pub fn take_flush_request(&mut self) -> (requested: bool)
        ensures
            requested == old(self).flush_requested,
            !final(self).flush_requested,
            final(self).tagged_clip_id == old(self).tagged_clip_id,
    {
        let requested = self.flush_requested;
        self.flush_requested = false;
        requested
    }
}

/// Called by the event bus handler when a collision is detected: remembers
/// `clip_id` for the writer (a later tag replaces an earlier one).
pub fn tag_preroll(signals: &mut WriterSignals, clip_id: u32)
    ensures
        final(signals).tagged_clip_id == clip_id,
        final(signals).flush_requested == old(signals).flush_requested,
{
    signals.tagged_clip_id = clip_id;
}

/// Called on a suspend request — signals the writer to checkpoint.
pub fn flush_and_checkpoint(signals: &mut WriterSignals)
    ensures
        final(signals).flush_requested,
        final(signals).tagged_clip_id == old(signals).tagged_clip_id,
{
    signals.flush_requested = true;
}

// ── Config ────────────────────────────────────────────────────────────────────

pub struct Config {
    /// Directory on eMMC where loop segments are written (path bytes).
    pub root_dir: Vec<u8>,
    /// Seconds per segment (must match encoder's `frames_per_seg / fps`).
    pub segment_secs: u64,
    /// Maximum loop storage in GB — oldest segments evicted when exceeded.
    pub max_storage_gb: u64,
    /// Pre-roll duration to preserve on collision (seconds).
    pub pre_roll_secs: u64,
}

/// Bytes in a gigabyte, as the storage limit counts them.
pub const BYTES_PER_GB: u64 = 1024 * 1024 * 1024;

/// Microseconds in a second.
pub const US_PER_SEC: u64 = 1_000_000;

// ── Segment metadata ──────────────────────────────────────────────────────────

#[derive(Debug)]
pub struct SegmentMeta {
    /// Path of the segment file (path bytes).
    pub path: Vec<u8>,
    pub size_bytes: u64,
    pub start_ts: u64,
    pub end_ts: u64,
}

/// Total size of a run of segments.
pub open spec fn spec_total_size(s: Seq<SegmentMeta>) -> nat
    decreases s.len(),
{
    if s.len() == 0 {
        0
    } else {
        s[0].size_bytes as nat + spec_total_size(s.subrange(1, s.len() as int))
    }
}

/// How many of the oldest segments are evicted when `extra` bytes beyond
/// the recorded segments are still counted: segments leave from the front
/// for as long as the count is above `max_bytes` and any are left.
pub open spec fn spec_evict_count(s: Seq<SegmentMeta>, extra: nat, max_bytes: u64) -> nat
    decreases s.len(),
{
    if s.len() > 0 && spec_total_size(s) + extra > max_bytes {
        1 + spec_evict_count(s.subrange(1, s.len() as int), extra, max_bytes)
    } else {
        0
    }
}

/// The paths of the segments that end at or after `cutoff`, oldest first.
pub open spec fn spec_preroll_paths(s: Seq<SegmentMeta>, cutoff: u64) -> Seq<Seq<u8>>
    decreases s.len(),
{
    if s.len() == 0 {
        Seq::empty()
    } else {
        let rest = spec_preroll_paths(s.drop_last(), cutoff);
        if s.last().end_ts >= cutoff {
            rest.push(s.last().path@)
        } else {
            rest
        }
    }
}

/// The start of the pre-roll window before `current_ts`.
pub open spec fn spec_preroll_cutoff(current_ts: u64, pre_roll_secs: u64) -> u64 {
    let pre_roll_us = pre_roll_secs * US_PER_SEC;
    if current_ts >= pre_roll_us { (current_ts - pre_roll_us) as u64 } else { 0 }
}

proof fn lemma_total_size_push(s: Seq<SegmentMeta>, m: SegmentMeta)
    ensures
        spec_total_size(s.push(m)) == spec_total_size(s) + m.size_bytes,
    decreases s.len(),
{
    if s.len() == 0 {
        assert(s.push(m).subrange(1, 1) =~= Seq::<SegmentMeta>::empty());
        assert(spec_total_size(Seq::<SegmentMeta>::empty()) == 0);
        assert(s.push(m)[0] == m);
        assert(spec_total_size(s) == 0);
    } else {
        assert(s.push(m)[0] == s[0]);
        lemma_total_size_push(s.subrange(1, s.len() as int), m);
        assert(s.push(m).subrange(1, s.len() as int + 1) =~= s.subrange(1, s.len() as int).push(m));
    }
}

/// Eviction keeps the longest run of newest segments that fits the limit:
/// with `extra` bytes still counted beyond the recorded segments (0 when
/// every evicted file was removed), the segments left after the oldest
/// `spec_evict_count` are dropped, together with `extra`, stay within
/// `max_bytes` unless none is left; and keeping any more of the older ones
/// would exceed it, so no segment is dropped that did not have to be.
pub proof fn lemma_eviction_keeps_longest_fitting_suffix(s: Seq<SegmentMeta>, extra: nat, max_bytes: u64)
    ensures
        ({
            let n = spec_evict_count(s, extra, max_bytes) as int;
            let kept = s.subrange(n, s.len() as int);
            &&& n <= s.len()
            &&& kept.len() == 0 || spec_total_size(kept) + extra <= max_bytes
            &&& forall|m: int|
                0 <= m < n ==> spec_total_size(#[trigger] s.subrange(m, s.len() as int)) + extra
                    > max_bytes
        }),
    decreases s.len(),
{
    let n = spec_evict_count(s, extra, max_bytes) as int;
    if s.len() > 0 && spec_total_size(s) + extra > max_bytes {
        let t = s.subrange(1, s.len() as int);
        lemma_eviction_keeps_longest_fitting_suffix(t, extra, max_bytes);
        let nt = spec_evict_count(t, extra, max_bytes) as int;
        assert(s.subrange(nt + 1, s.len() as int) =~= t.subrange(nt, t.len() as int));
        assert forall|m: int| 0 <= m < n implies spec_total_size(
            #[trigger] s.subrange(m, s.len() as int),
        ) + extra > max_bytes by {
            if m == 0 {
                assert(s.subrange(0, s.len() as int) =~= s);
            } else {
                assert(s.subrange(m, s.len() as int) =~= t.subrange(m - 1, t.len() as int));
            }
        }
    } else {
        assert(s.subrange(0, s.len() as int) =~= s);
    }
}

/// The bookkeeping of writing one segment: recording segment `meta` adds
/// its size to the total of the record, and when every evicted file is
/// removed, what is kept is the longest run of newest segments of the
/// record, the new one included, whose total is within `max_bytes` (none,
/// if the new segment alone exceeds it), kept in write order.
pub proof fn lemma_write_segment_bookkeeping(written: Seq<SegmentMeta>, meta: SegmentMeta, max_bytes: u64)
    ensures
        ({
            let recorded = written.push(meta);
            let n = spec_evict_count(recorded, 0, max_bytes) as int;
            let kept = recorded.subrange(n, recorded.len() as int);
            &&& spec_total_size(recorded) == spec_total_size(written) + meta.size_bytes
            &&& n <= recorded.len()
            &&& spec_total_size(kept) <= max_bytes
            &&& forall|m: int|
                0 <= m < n ==> spec_total_size(#[trigger] recorded.subrange(m, recorded.len() as int))
                    > max_bytes
            &&& forall|i: int| 0 <= i < kept.len() ==> #[trigger] kept[i] == recorded[n + i]
        }),
{
    let recorded = written.push(meta);
    lemma_total_size_push(written, meta);
    lemma_eviction_keeps_longest_fitting_suffix(recorded, 0, max_bytes);
    let n = spec_evict_count(recorded, 0, max_bytes) as int;
    if n == recorded.len() {
        assert(recorded.subrange(n, recorded.len() as int) =~= Seq::<SegmentMeta>::empty());
    }
}

/// The pre-roll window follows the configured length: of the segments on
/// record, those preserved for a collision at `current_ts` are exactly the
/// ones that end no earlier than `pre_roll_secs` seconds
/// (`pre_roll_secs * 1_000_000` µs) before it — every segment, when the
/// window reaches back past the start of time — each once, in recording
/// order.  The result is the index in the record of each preserved path.
pub proof fn lemma_preroll_window_follows_config(
    s: Seq<SegmentMeta>,
    current_ts: u64,
    pre_roll_secs: u64,
) -> (idx: Seq<int>)
    requires
        pre_roll_secs * 1_000_000 <= u64::MAX,
    ensures
        ({
            let paths = spec_preroll_paths(s, spec_preroll_cutoff(current_ts, pre_roll_secs));
            &&& idx.len() == paths.len()
            &&& forall|j: int|
                0 <= j < idx.len() ==> 0 <= #[trigger] idx[j] < s.len() && paths[j] == s[idx[j]].path@
            &&& forall|j: int, k: int| 0 <= j < k < idx.len() ==> idx[j] < idx[k]
            &&& forall|i: int|
                0 <= i < s.len() ==> ((s[i].end_ts + pre_roll_secs * 1_000_000 >= current_ts) <==> (
                exists|j: int| 0 <= j < idx.len() && #[trigger] idx[j] == i))
        }),
    decreases s.len(),
{
    let cutoff = spec_preroll_cutoff(current_ts, pre_roll_secs);
    if s.len() == 0 {
        Seq::empty()
    } else {
        let pre = s.drop_last();
        let idx0 = lemma_preroll_window_follows_config(pre, current_ts, pre_roll_secs);
        let n = s.len() - 1;
        let last = s.last();
        assert(last.end_ts >= cutoff <==> last.end_ts + pre_roll_secs * 1_000_000 >= current_ts);
        if last.end_ts >= cutoff {
            let idx = idx0.push(n);
            assert forall|i: int| 0 <= i < s.len() implies ((s[i].end_ts + pre_roll_secs * 1_000_000
                >= current_ts) <==> (exists|j: int| 0 <= j < idx.len() && #[trigger] idx[j] == i)) by {
                if i < n {
                    assert(s[i] == pre[i]);
                    if exists|j: int| 0 <= j < idx.len() && #[trigger] idx[j] == i {
                        let j = choose|j: int| 0 <= j < idx.len() && #[trigger] idx[j] == i;
                        assert(j < idx0.len());
                        assert(idx0[j] == i);
                    }
                    if exists|j: int| 0 <= j < idx0.len() && #[trigger] idx0[j] == i {
                        let j = choose|j: int| 0 <= j < idx0.len() && #[trigger] idx0[j] == i;
                        assert(idx[j] == i);
                    }
                } else {
                    assert(idx[idx0.len() as int] == i);
                }
            }
            idx
        } else {
            assert forall|i: int| 0 <= i < s.len() implies ((s[i].end_ts + pre_roll_secs * 1_000_000
                >= current_ts) <==> (exists|j: int| 0 <= j < idx0.len() && #[trigger] idx0[j] == i)) by {
                if i < n {
                    assert(s[i] == pre[i]);
                } else {
                    if exists|j: int| 0 <= j < idx0.len() && #[trigger] idx0[j] == i {
                        let j = choose|j: int| 0 <= j < idx0.len() && #[trigger] idx0[j] == i;
                        assert(idx0[j] < pre.len());
                    }
                }
            }
            idx0
        }
    }
}

// ── Actions for the application ───────────────────────────────────────────────

/// Segments to copy into the evidence directory of a tagged collision clip.
#[derive(Debug)]
pub struct PrerollCopy {
    pub clip_id: u32,
    /// Name of the clip's directory under `evidence/`.
    pub clip_dir: Vec<u8>,
    /// Paths of the segments to preserve, oldest first.
    pub segments: Vec<Vec<u8>>,
}

/// What the application has to do on disk after a segment was written.
#[derive(Debug)]
pub struct SegmentActions {
    /// Segments to delete, oldest first.
    pub evicted: Vec<SegmentMeta>,
    /// Pre-roll segments to preserve, when a collision was tagged.
    pub preserve: Option<PrerollCopy>,
}

// ── Writer state ──────────────────────────────────────────────────────────────

pub struct LoopWriter {
    pub cfg: Config,
    /// Ring of written segments, oldest first.
    pub written: VecDeque<SegmentMeta>,
    /// Bytes counted against the limit: the recorded segments, plus those
    /// of evicted segments whose files could not be removed.
    pub total_bytes: u64,
    pub max_bytes: u64,
    pub segment_idx: u64,
}

impl LoopWriter {
    /// `total_bytes` counts at least the segments on record.
    pub open spec fn wf(&self) -> bool {
        self.total_bytes as nat >= spec_total_size(self.written@)
    }

    /// The bytes counted beyond the recorded segments: those of evicted
    /// segments whose files could not be removed.
    pub open spec fn spec_unsettled_bytes(&self) -> nat {
        (self.total_bytes - spec_total_size(self.written@)) as nat
    }

    /// A writer with no segments on record, limited to
    /// `max_storage_gb` GiB of loop footage.
    pub fn new(cfg: Config) -> (w: Self)
        requires
            cfg.max_storage_gb * BYTES_PER_GB <= u64::MAX,
        ensures
            w.wf(),
            w.written@.len() == 0,
            w.total_bytes == 0,
            w.max_bytes == cfg.max_storage_gb * BYTES_PER_GB,
            w.segment_idx == 0,
            w.cfg == cfg,
    {
        let max_bytes = cfg.max_storage_gb * BYTES_PER_GB;
        LoopWriter { cfg, written: VecDeque::new(), total_bytes: 0, max_bytes, segment_idx: 0 }
    }

    /// File name of the next segment, starting at `start_ts` µs.
    pub fn next_segment_file_name(&self, start_ts: u64) -> (name: Vec<u8>)
        ensures
            name@ == spec_segment_file_name(self.segment_idx, start_ts),
    {
        segment_file_name(self.segment_idx, start_ts)
    }

    /// Records segment `seg`, already written to `path`: it joins the
    /// record as the newest, its size is counted, and the segment counter
    /// moves on.
    pub fn record_segment(&mut self, path: Vec<u8>, seg: &EncodedSegment)
        requires
            old(self).wf(),
            old(self).total_bytes + seg.data@.len() <= u64::MAX,
            old(self).segment_idx < u64::MAX,
        ensures
            final(self).wf(),
            final(self).written@ == old(self).written@.push(
                SegmentMeta {
                    path,
                    size_bytes: seg.data@.len() as u64,
                    start_ts: seg.start_ts_us,
                    end_ts: seg.end_ts_us,
                },
            ),
            final(self).total_bytes == old(self).total_bytes + seg.data@.len(),
            final(self).spec_unsettled_bytes() == old(self).spec_unsettled_bytes(),
            final(self).segment_idx == old(self).segment_idx + 1,
            final(self).max_bytes == old(self).max_bytes,
            final(self).cfg == old(self).cfg,
    {
        let size = seg.data.len() as u64;
        let meta = SegmentMeta {
            path,
            size_bytes: size,
            start_ts: seg.start_ts_us,
            end_ts: seg.end_ts_us,
        };
        proof {
            lemma_total_size_push(self.written@, meta);
        }
        self.total_bytes = self.total_bytes + size;
        self.written.push_back(meta);
        self.segment_idx = self.segment_idx + 1;
    }

    /// The path of the segment to evict next — the oldest on record —
    /// while the count is over the limit; `None` once it is within the
    /// limit or nothing is left to evict.
    pub fn next_eviction(&self) -> (path: Option<Vec<u8>>)
        ensures
            path is Some <==> self.total_bytes > self.max_bytes && self.written@.len() > 0,
            path matches Some(p) ==> p@ == self.written@[0].path@,
    {
        if self.total_bytes > self.max_bytes && self.written.len() > 0 {
            Some(slice_to_vec(self.written[0].path.as_slice()))
        } else {
            None
        }
    }

    /// Drops the oldest segment from the record, once the application has
    /// tried to remove its file: when `removed`, its size leaves the count;
    /// otherwise it stays counted, so the space it still takes is not
    /// handed out again.  Returns the dropped segment.
    pub fn commit_eviction(&mut self, removed: bool) -> (oldest: SegmentMeta)
        requires
            old(self).wf(),
            old(self).total_bytes > old(self).max_bytes,
            old(self).written@.len() > 0,
        ensures
            final(self).wf(),
            oldest == old(self).written@[0],
            final(self).written@ == old(self).written@.subrange(1, old(self).written@.len() as int),
            final(self).total_bytes == if removed {
                old(self).total_bytes - oldest.size_bytes
            } else {
                old(self).total_bytes as int
            },
            removed ==> final(self).spec_unsettled_bytes() == old(self).spec_unsettled_bytes(),
            !removed ==> final(self).spec_unsettled_bytes() == old(self).spec_unsettled_bytes()
                + oldest.size_bytes,
            final(self).max_bytes == old(self).max_bytes,
            final(self).cfg == old(self).cfg,
            final(self).segment_idx == old(self).segment_idx,
    {
        let ghost before = self.written@;
        assert(spec_total_size(before) == before[0].size_bytes + spec_total_size(
            before.subrange(1, before.len() as int),
        ));
        let oldest = self.written.pop_front().unwrap();
        proof {
            assert(self.written@ =~= before.subrange(1, before.len() as int));
        }
        if removed {
            self.total_bytes = self.total_bytes - oldest.size_bytes;
        }
        oldest
    }

    /// Evict oldest segments until total storage is under the limit,
    /// counting each evicted file as removed.  Returns the evicted
    /// segments, oldest first, for deletion.
    pub fn evict_if_needed(&mut self) -> (evicted: Vec<SegmentMeta>)
        requires
            old(self).wf(),
        ensures
            final(self).wf(),
            ({
                let n = spec_evict_count(
                    old(self).written@,
                    old(self).spec_unsettled_bytes(),
                    old(self).max_bytes,
                );
                &&& evicted@ == old(self).written@.subrange(0, n as int)
                &&& final(self).written@ == old(self).written@.subrange(
                    n as int,
                    old(self).written@.len() as int,
                )
            }),
            final(self).spec_unsettled_bytes() == old(self).spec_unsettled_bytes(),
            final(self).written@.len() == 0 || final(self).total_bytes <= final(self).max_bytes,
            old(self).spec_unsettled_bytes() == 0 ==> final(self).total_bytes <= final(self).max_bytes,
            final(self).max_bytes == old(self).max_bytes,
            final(self).cfg == old(self).cfg,
            final(self).segment_idx == old(self).segment_idx,
    {
        let ghost orig = self.written@;
        let ghost max = self.max_bytes;
        let ghost extra = self.spec_unsettled_bytes();
        let mut evicted: Vec<SegmentMeta> = Vec::new();
        while self.total_bytes > self.max_bytes && self.written.len() > 0
            invariant
                self.wf(),
                self.spec_unsettled_bytes() == extra,
                self.max_bytes == max,
                self.cfg == old(self).cfg,
                self.segment_idx == old(self).segment_idx,
                evicted@.len() <= orig.len(),
                evicted@ == orig.subrange(0, evicted@.len() as int),
                self.written@ == orig.subrange(evicted@.len() as int, orig.len() as int),
                spec_evict_count(orig, extra, max) == evicted@.len() + spec_evict_count(
                    self.written@,
                    extra,
                    max,
                ),
            decreases self.written@.len(),
        {
            let oldest = self.commit_eviction(true);
            evicted.push(oldest);
            proof {
                assert(evicted@ =~= orig.subrange(0, evicted@.len() as int));
                assert(self.written@ =~= orig.subrange(evicted@.len() as int, orig.len() as int));
            }
        }
        proof {
            if self.written@.len() == 0 {
                assert(spec_total_size(self.written@) == 0);
            }
        }
        evicted
    }

    /// If a collision clip was tagged, takes the tag and picks the segments
    /// of the pre-roll window (those ending at or after
    /// `current_ts - pre_roll_secs`) for the clip's evidence directory.
    pub fn check_collision_tag(&self, signals: &mut WriterSignals, current_ts: u64) -> (copy:
        Option<PrerollCopy>)
        requires
            old(signals).tagged_clip_id != 0 ==> self.cfg.pre_roll_secs * US_PER_SEC
                <= u64::MAX,
        ensures
            final(signals).tagged_clip_id == 0,
            final(signals).flush_requested == old(signals).flush_requested,
            old(signals).tagged_clip_id == 0 <==> copy is None,
            copy matches Some(c) ==> {
                &&& c.clip_id == old(signals).tagged_clip_id
                &&& c.clip_dir@ == spec_clip_dir_name(c.clip_id)
                &&& c.segments@.map_values(|p: Vec<u8>| p@) == spec_preroll_paths(
                    self.written@,
                    spec_preroll_cutoff(current_ts, self.cfg.pre_roll_secs),
                )
            },
    {
        let clip_id = signals.take_tagged_clip();
        if clip_id == 0 {
            return None;
        }
        let pre_roll_us = self.cfg.pre_roll_secs * US_PER_SEC;
        let cutoff_ts = current_ts.saturating_sub(pre_roll_us);

        let mut segments: Vec<Vec<u8>> = Vec::new();
        let n = self.written.len();
        let mut i: usize = 0;
        while i < n
            invariant
                i <= n,
                n == self.written@.len(),
                segments@.map_values(|p: Vec<u8>| p@) == spec_preroll_paths(
                    self.written@.subrange(0, i as int),
                    cutoff_ts,
                ),
            decreases n - i,
        {
            let seg = &self.written[i];
            proof {
                assert(self.written@.subrange(0, i + 1).drop_last() =~= self.written@.subrange(
                    0,
                    i as int,
                ));
            }
            if seg.end_ts >= cutoff_ts {
                let ghost before = segments@;
                segments.push(slice_to_vec(seg.path.as_slice()));
                proof {
                    assert(segments@.map_values(|p: Vec<u8>| p@) =~= before.map_values(
                        |p: Vec<u8>| p@,
                    ).push(seg.path@));
                }
            }
            i = i + 1;
        }
        proof {
            assert(self.written@.subrange(0, n as int) =~= self.written@);
        }
        Some(PrerollCopy { clip_id, clip_dir: clip_dir_name(clip_id), segments })
    }

    /// Records segment `seg`, already written to `path`, then evicts the
    /// oldest segments beyond the storage limit (counting their files as
    /// removed) and handles a tagged collision.  Returns what has to be done
    /// on disk.
    pub fn write_segment(&mut self, path: Vec<u8>, seg: &EncodedSegment, signals: &mut WriterSignals) -> (actions: SegmentActions)
        requires
            old(self).wf(),
            old(self).total_bytes + seg.data@.len() <= u64::MAX,
            old(self).segment_idx < u64::MAX,
            old(signals).tagged_clip_id != 0 ==> old(self).cfg.pre_roll_secs * US_PER_SEC
                <= u64::MAX,
        ensures
            final(self).wf(),
            ({
                let meta = SegmentMeta {
                    path,
                    size_bytes: seg.data@.len() as u64,
                    start_ts: seg.start_ts_us,
                    end_ts: seg.end_ts_us,
                };
                let recorded = old(self).written@.push(meta);
                let n = spec_evict_count(recorded, old(self).spec_unsettled_bytes(), old(self).max_bytes);
                &&& actions.evicted@ == recorded.subrange(0, n as int)
                &&& final(self).written@ == recorded.subrange(n as int, recorded.len() as int)
                &&& actions.preserve is None <==> old(signals).tagged_clip_id == 0
                &&& actions.preserve matches Some(c) ==> {
                    &&& c.clip_id == old(signals).tagged_clip_id
                    &&& c.clip_dir@ == spec_clip_dir_name(c.clip_id)
                    &&& c.segments@.map_values(|p: Vec<u8>| p@) == spec_preroll_paths(
                        final(self).written@,
                        spec_preroll_cutoff(seg.start_ts_us, old(self).cfg.pre_roll_secs),
                    )
                }
            }),
            final(self).spec_unsettled_bytes() == old(self).spec_unsettled_bytes(),
            final(self).written@.len() == 0 || final(self).total_bytes <= final(self).max_bytes,
            old(self).spec_unsettled_bytes() == 0 ==> final(self).total_bytes <= final(self).max_bytes,
            final(self).max_bytes == old(self).max_bytes,
            final(self).segment_idx == old(self).segment_idx + 1,
            final(self).cfg == old(self).cfg,
            final(signals).tagged_clip_id == 0,
            final(signals).flush_requested == old(signals).flush_requested,
    {
        self.record_segment(path, seg);
        let evicted = self.evict_if_needed();
        let preserve = self.check_collision_tag(signals, seg.start_ts_us);
        SegmentActions { evicted, preserve }
    }
}

// ── Ordering of segment file names ────────────────────────────────────────────

/// `a` comes strictly before `b` in byte-wise lexicographic order, at a
/// position where both have a byte.
pub open spec fn spec_lex_lt(a: Seq<u8>, b: Seq<u8>) -> bool {
    exists|k: int|
        0 <= k < a.len() && k < b.len() && a.take(k) == b.take(k) && #[trigger] a[k] < b[k]
}

/// Every byte is an ASCII decimal digit.
pub open spec fn spec_all_digits(s: Seq<u8>) -> bool {
    forall|i: int| 0 <= i < s.len() ==> 48 <= #[trigger] s[i] <= 57
}

/// The number a string of ASCII decimal digits denotes.
pub open spec fn spec_digits_value(s: Seq<u8>) -> nat
    decreases s.len(),
{
    if s.len() == 0 {
        0
    } else {
        spec_digits_value(s.drop_last()) * 10 + (s.last() - 48) as nat
    }
}

pub open spec fn spec_pow10(k: nat) -> nat
    decreases k,
{
    if k == 0 { 1 } else { 10 * spec_pow10((k - 1) as nat) }
}

proof fn lemma_digits_value_bound(s: Seq<u8>)
    requires
        spec_all_digits(s),
    ensures
        spec_digits_value(s) < spec_pow10(s.len()),
    decreases s.len(),
{
    if s.len() > 0 {
        lemma_digits_value_bound(s.drop_last());
        assert(48 <= s[s.len() - 1] <= 57);
    }
}

proof fn lemma_decimal_facts(n: nat)
    ensures
        spec_all_digits(spec_decimal(n)),
        spec_digits_value(spec_decimal(n)) == n,
        spec_decimal(n).len() >= 1,
        spec_decimal(n).len() == 1 || n >= spec_pow10((spec_decimal(n).len() - 1) as nat),
    decreases n,
{
    if n >= 10 {
        lemma_decimal_facts(n / 10);
        let d = spec_decimal(n / 10);
        assert(spec_decimal(n).drop_last() =~= d);
        let k = d.len();
        assert(spec_pow10(k) == 10 * spec_pow10((k - 1) as nat));
        assert(spec_decimal(n).last() == (48 + n % 10) as u8);
        assert(n == (n / 10) * 10 + n % 10);
        assert(spec_digits_value(spec_decimal(n)) == spec_digits_value(d) * 10 + n % 10);
    } else {
        assert(spec_decimal(n).drop_last() =~= Seq::<u8>::empty());
        assert(spec_digits_value(spec_decimal(n)) == spec_digits_value(Seq::<u8>::empty()) * 10 + n);
    }
}

proof fn lemma_zeros_value(z: Seq<u8>, s: Seq<u8>)
    requires
        forall|i: int| 0 <= i < z.len() ==> #[trigger] z[i] == 48u8,
    ensures
        spec_digits_value(z + s) == spec_digits_value(s),
    decreases z.len() + s.len(),
{
    if s.len() == 0 {
        assert(z + s =~= z);
        if z.len() > 0 {
            lemma_zeros_value(z.drop_last(), s);
            assert(z.drop_last() + s =~= z.drop_last());
        }
    } else {
        lemma_zeros_value(z, s.drop_last());
        assert((z + s).drop_last() =~= z + s.drop_last());
    }
}

proof fn lemma_zero_padded_facts(n: nat, width: nat)
    requires
        n < spec_pow10(width),
        width >= 1,
    ensures
        spec_zero_padded(n, width).len() == width,
        spec_all_digits(spec_zero_padded(n, width)),
        spec_digits_value(spec_zero_padded(n, width)) == n,
{
    lemma_decimal_facts(n);
    let d = spec_decimal(n);
    if d.len() > width {
        lemma_pow10_monotone(width, (d.len() - 1) as nat);
    }
    if d.len() < width {
        let z = Seq::new((width - d.len()) as nat, |i: int| 48u8);
        lemma_zeros_value(z, d);
    }
}

proof fn lemma_pow10_monotone(a: nat, b: nat)
    requires
        a <= b,
    ensures
        spec_pow10(a) <= spec_pow10(b),
    decreases b,
{
    if a < b {
        lemma_pow10_monotone(a, (b - 1) as nat);
    }
}

proof fn lemma_digits_value_injective(a: Seq<u8>, b: Seq<u8>)
    requires
        spec_all_digits(a),
        spec_all_digits(b),
        a.len() == b.len(),
        spec_digits_value(a) == spec_digits_value(b),
    ensures
        a == b,
    decreases a.len(),
{
    if a.len() > 0 {
        let la = a.last();
        let lb = b.last();
        assert(48 <= a[a.len() - 1] <= 57);
        assert(48 <= b[b.len() - 1] <= 57);
        lemma_digits_value_injective(a.drop_last(), b.drop_last());
        assert(a =~= a.drop_last().push(la));
        assert(b =~= b.drop_last().push(lb));
    } else {
        assert(a =~= b);
    }
}

proof fn lemma_digits_lex(a: Seq<u8>, b: Seq<u8>)
    requires
        spec_all_digits(a),
        spec_all_digits(b),
        a.len() == b.len(),
        spec_digits_value(a) < spec_digits_value(b),
    ensures
        spec_lex_lt(a, b),
    decreases a.len(),
{
    let n = a.len() as int;
    let a1 = a.drop_last();
    let b1 = b.drop_last();
    assert(48 <= a[n - 1] <= 57);
    assert(48 <= b[n - 1] <= 57);
    if spec_digits_value(a1) < spec_digits_value(b1) {
        lemma_digits_lex(a1, b1);
        let k = choose|k: int|
            0 <= k < a1.len() && k < b1.len() && a1.take(k) == b1.take(k) && #[trigger] a1[k] < b1[k];
        assert(a.take(k) =~= a1.take(k));
        assert(b.take(k) =~= b1.take(k));
        assert(a[k] == a1[k] && b[k] == b1[k]);
    } else if spec_digits_value(a1) == spec_digits_value(b1) {
        lemma_digits_value_injective(a1, b1);
        assert(a.take(n - 1) =~= a1);
        assert(b.take(n - 1) =~= b1);
        assert(a[n - 1] < b[n - 1]);
    } else {
        assert(false);
    }
}

/// Segment file names sort in the order the segments were written: for
/// segment numbers below 10^8 (the zero-padded width), an earlier segment's
/// name comes strictly before a later one's, whatever their start times.
pub proof fn lemma_segment_names_sort_by_index(i: u64, j: u64, ts_i: u64, ts_j: u64)
    requires
        i < j < 100_000_000,
    ensures
        spec_lex_lt(spec_segment_file_name(i, ts_i), spec_segment_file_name(j, ts_j)),
{
    reveal_with_fuel(spec_pow10, 9);
    assert(spec_pow10(8) == 100_000_000);
    lemma_zero_padded_facts(i as nat, 8);
    lemma_zero_padded_facts(j as nat, 8);
    let pi = spec_zero_padded(i as nat, 8);
    let pj = spec_zero_padded(j as nat, 8);
    lemma_digits_lex(pi, pj);
    let k = choose|k: int| 0 <= k < pi.len() && k < pj.len() && pi.take(k) == pj.take(k) && #[trigger] pi[k] < pj[k];
    let a = spec_segment_file_name(i, ts_i);
    let b = spec_segment_file_name(j, ts_j);
    let prefix = seq![115u8, 101u8, 103u8, 95u8];
    assert(a.take(4 + k) =~= prefix + pi.take(k));
    assert(b.take(4 + k) =~= prefix + pj.take(k));
    assert(a[4 + k] == pi[k]);
    assert(b[4 + k] == pj[k]);
}

} // verus!
