//! The Jetson GStreamer encoder backend: the description of its encoding
//! pipeline, and the assembly of the encoded NAL units it delivers into
//! one-minute loop segments.
//!
//! Building and running the pipeline itself needs the GStreamer libraries;
//! the daemon does that (when built for the Jetson) from the description
//! given here, and hands each encoded buffer to `SegmentAssembler::push`.

use vstd::prelude::*;
use vstd::slice::*;
use crate::loop_writer::push_decimal;
use vstd::string::StringSliceAdditionalSpecFns;
pub use crate::encoder_common::EncodedSegment;

verus! {

/// Seconds of video per loop segment.
pub const SEGMENT_SECS: u32 = 60;

/// Default pre-allocation of the segment buffer: 32 MiB — enough for a
/// 60 s segment at 4 Mbps (≈ 30 MB) without reallocation, while fitting in
/// RV1106 RAM.
pub const DEFAULT_INITIAL_CAP: usize = 32 * 1024 * 1024;

// ── Pipeline description ─────────────────────────────────────────────────────

/// The encoder element of the pipeline: the Jetson hardware encoder, whose
/// bitrate is in bit/s, or the `x264enc` software fallback, whose bitrate is
/// in kbit/s.
pub open spec fn spec_encoder_element(bitrate_kbps: u32, hw_encoder: bool) -> Seq<u8> {
    if hw_encoder {
        "nvv4l2h264enc bitrate=".spec_bytes() + crate::loop_writer::spec_decimal((bitrate_kbps * 1000) as nat)
            + " ".spec_bytes()
    } else {
        "x264enc bitrate=".spec_bytes() + crate::loop_writer::spec_decimal(bitrate_kbps as nat)
            + " speed-preset=ultrafast tune=zerolatency ".spec_bytes()
    }
}

/// The GStreamer launch description: NV12 frames of `width` × `height` at
/// `fps` pushed into `appsrc`, encoded to H.264, parsed, and pulled from
/// `appsink`.
pub open spec fn spec_pipeline_description(
    width: u32,
    height: u32,
    fps: u32,
    bitrate_kbps: u32,
    hw_encoder: bool,
) -> Seq<u8> {
    "appsrc name=src caps=video/x-raw,format=NV12,width=".spec_bytes() + crate::loop_writer::spec_decimal(width as nat)
        + ",height=".spec_bytes() + crate::loop_writer::spec_decimal(height as nat) + ",framerate=".spec_bytes()
        + crate::loop_writer::spec_decimal(fps as nat)
        + "/1,interlace-mode=progressive format=time block=true max-bytes=0 ! ".spec_bytes()
        + spec_encoder_element(bitrate_kbps, hw_encoder)
        + "! h264parse ! appsink name=sink sync=false max-buffers=8 drop=false".spec_bytes()
}

/// Appends the UTF-8 bytes of `s` to `buf`.
fn push_str_bytes(buf: &mut Vec<u8>, s: &str)
    ensures
        final(buf)@ == old(buf)@ + s.spec_bytes(),
{
    let mut bytes = slice_to_vec(s.as_bytes());
    buf.append(&mut bytes);
}

/// The launch description of the encoding pipeline, in UTF-8:
/// `hw_encoder` picks the Jetson hardware encoder (`nvv4l2h264enc`),
/// otherwise the software fallback `x264enc` is used.
pub fn pipeline_description(
    width: u32,
    height: u32,
    fps: u32,
    bitrate_kbps: u32,
    hw_encoder: bool,
) -> (desc: Vec<u8>)
    requires
        hw_encoder ==> bitrate_kbps * 1000 <= u32::MAX,
    ensures
        desc@ == spec_pipeline_description(width, height, fps, bitrate_kbps, hw_encoder),
{
    let mut desc: Vec<u8> = Vec::new();
    push_str_bytes(&mut desc, "appsrc name=src caps=video/x-raw,format=NV12,width=");
    push_decimal(&mut desc, width as u64);
    push_str_bytes(&mut desc, ",height=");
    push_decimal(&mut desc, height as u64);
    push_str_bytes(&mut desc, ",framerate=");
    push_decimal(&mut desc, fps as u64);
    push_str_bytes(&mut desc, "/1,interlace-mode=progressive format=time block=true max-bytes=0 ! ");
    if hw_encoder {
        push_str_bytes(&mut desc, "nvv4l2h264enc bitrate=");
        push_decimal(&mut desc, (bitrate_kbps * 1000) as u64);
        push_str_bytes(&mut desc, " ");
    } else {
        push_str_bytes(&mut desc, "x264enc bitrate=");
        push_decimal(&mut desc, bitrate_kbps as u64);
        push_str_bytes(&mut desc, " speed-preset=ultrafast tune=zerolatency ");
    }
    push_str_bytes(&mut desc, "! h264parse ! appsink name=sink sync=false max-buffers=8 drop=false");
    desc
}

/// The assembler's state as a mathematical value.
pub ghost struct AssemblerView {
    pub buf: Seq<u8>,
    pub start_ts: u64,
    pub frame_count: u32,
    pub frames_per_seg: u32,
}

/// A segment as a mathematical value.
pub ghost struct SegmentView {
    pub data: Seq<u8>,
    pub start_ts_us: u64,
    pub end_ts_us: u64,
    pub frame_count: u32,
}

pub open spec fn segment_view(s: EncodedSegment) -> SegmentView {
    SegmentView {
        data: s.data@,
        start_ts_us: s.start_ts_us,
        end_ts_us: s.end_ts_us,
        frame_count: s.frame_count,
    }
}

/// A fresh assembler: nothing buffered.
pub open spec fn spec_fresh(frames_per_seg: u32) -> AssemblerView {
    AssemblerView { buf: Seq::empty(), start_ts: 0, frame_count: 0, frames_per_seg }
}

/// The assembler can count one more frame.
pub open spec fn spec_assembler_inv(a: AssemblerView) -> bool {
    a.frame_count == 0 || a.frame_count < a.frames_per_seg
}

/// One push of `nal` (a frame's encoded bytes) stamped `ts`: the first frame
/// of a segment sets its start; once `frames_per_seg` frames are in, the
/// segment is handed out and the assembler starts over.
pub open spec fn spec_push(a: AssemblerView, nal: Seq<u8>, ts: u64) -> (AssemblerView, Option<SegmentView>) {
    let start = if a.frame_count == 0 { ts } else { a.start_ts };
    let data = a.buf + nal;
    let count = (a.frame_count + 1) as u32;
    if count >= a.frames_per_seg {
        (
            AssemblerView { buf: Seq::empty(), start_ts: start, frame_count: 0, frames_per_seg: a.frames_per_seg },
            Some(SegmentView { data, start_ts_us: start, end_ts_us: ts, frame_count: count }),
        )
    } else {
        (
            AssemblerView { buf: data, start_ts: start, frame_count: count, frames_per_seg: a.frames_per_seg },
            None,
        )
    }
}

/// `Vec::capacity`: how many bytes `v` can hold without reallocating.
/// The value is the allocator's business; nothing is promised of it.
#[verifier::external_body]
fn vec_capacity(v: &Vec<u8>) -> usize {
    v.capacity()
}

pub struct SegmentAssembler {
    buf: Vec<u8>,
    start_ts: u64,
    frame_count: u32,
    frames_per_seg: u32,
}

impl SegmentAssembler {
    pub closed spec fn view(&self) -> AssemblerView {
        AssemblerView {
            buf: self.buf@,
            start_ts: self.start_ts,
            frame_count: self.frame_count,
            frames_per_seg: self.frames_per_seg,
        }
    }

    /// A new assembler for `fps` frames per second, with the default
    /// pre-allocation.
    pub fn new(fps: u32) -> (a: Self)
        requires
            fps * SEGMENT_SECS <= u32::MAX,
        ensures
            a.view() == spec_fresh((fps * SEGMENT_SECS) as u32),
    {
        Self::with_capacity(fps, DEFAULT_INITIAL_CAP)
    }

    /// A new assembler for `fps` frames per second that pre-allocates
    /// `initial_cap_bytes` for the segment buffer.
    pub fn with_capacity(fps: u32, initial_cap_bytes: usize) -> (a: Self)
        requires
            fps * SEGMENT_SECS <= u32::MAX,
        ensures
            a.view() == spec_fresh((fps * SEGMENT_SECS) as u32),
    {
        SegmentAssembler {
            buf: Vec::with_capacity(initial_cap_bytes),
            start_ts: 0,
            frame_count: 0,
            frames_per_seg: fps * SEGMENT_SECS,
        }
    }

    /// Appends one frame's NAL units; returns the completed segment once
    /// `frames_per_seg` frames have been pushed.
    pub fn push(&mut self, nal_data: &[u8], frame_ts: u64) -> (seg: Option<EncodedSegment>)
        requires
            spec_assembler_inv(old(self).view()),
        ensures
            spec_assembler_inv(final(self).view()),
            (final(self).view(), match seg {
                Some(s) => Some(segment_view(s)),
                None => None,
            }) == spec_push(old(self).view(), nal_data@, frame_ts),
    {
        if self.frame_count == 0 {
            self.start_ts = frame_ts;
        }
        let mut nal = slice_to_vec(nal_data);
        self.buf.append(&mut nal);
        self.frame_count = self.frame_count + 1;

        if self.frame_count >= self.frames_per_seg {
            // The next segment gets the same capacity as this one.
            let prev_cap = vec_capacity(&self.buf);
            let mut data: Vec<u8> = Vec::with_capacity(prev_cap);
            std::mem::swap(&mut data, &mut self.buf);
            let seg = EncodedSegment {
                data,
                start_ts_us: self.start_ts,
                end_ts_us: frame_ts,
                frame_count: self.frame_count,
            };
            self.frame_count = 0;
            return Some(seg);
        }
        None
    }
}

// ── Laws ──────────────────────────────────────────────────────────────────────

/// Pushes a run of frames (encoded bytes and timestamp of each) one after
/// another: the final state and what each push handed out.
pub open spec fn spec_feed(a: AssemblerView, frames: Seq<(Seq<u8>, u64)>) -> (AssemblerView, Seq<Option<SegmentView>>)
    decreases frames.len(),
{
    if frames.len() == 0 {
        (a, Seq::empty())
    } else {
        let (s, outs) = spec_feed(a, frames.drop_last());
        let (s2, o) = spec_push(s, frames.last().0, frames.last().1);
        (s2, outs.push(o))
    }
}

/// The bytes of a run of frames, back to back.
pub open spec fn spec_frame_bytes(frames: Seq<(Seq<u8>, u64)>) -> Seq<u8> {
    frames.map_values(|f: (Seq<u8>, u64)| f.0).flatten()
}

proof fn lemma_feed_prefix(a: AssemblerView, frames: Seq<(Seq<u8>, u64)>, k: int)
    requires
        a.frame_count == 0,
        a.buf.len() == 0,
        a.frames_per_seg >= 1,
        frames.len() == a.frames_per_seg,
        0 < k < a.frames_per_seg,
    ensures
        spec_feed(a, frames.take(k)) == (
            AssemblerView {
                buf: spec_frame_bytes(frames.take(k)),
                start_ts: frames[0].1,
                frame_count: k as u32,
                frames_per_seg: a.frames_per_seg,
            },
            Seq::new(k as nat, |i: int| None::<SegmentView>),
        ),
    decreases k,
{
    let p = frames.take(k);
    assert(p.drop_last() =~= frames.take(k - 1));
    assert(p.last() == frames[k - 1]);
    let m = |f: (Seq<u8>, u64)| f.0;
    assert(p.map_values(m) =~= frames.take(k - 1).map_values(m).push(frames[k - 1].0));
    frames.take(k - 1).map_values(m).lemma_flatten_push(frames[k - 1].0);
    if k == 1 {
        assert(frames.take(0) =~= Seq::<(Seq<u8>, u64)>::empty());
        assert(frames.take(0).map_values(m) =~= Seq::<Seq<u8>>::empty());
        assert(spec_feed(a, frames.take(0)) == (a, Seq::<Option<SegmentView>>::empty()));
        assert(a.buf =~= Seq::<u8>::empty());
        assert(Seq::<Option<SegmentView>>::empty().push(None) =~= Seq::new(1, |i: int| None::<SegmentView>));
    } else {
        lemma_feed_prefix(a, frames, k - 1);
        assert(Seq::new((k - 1) as nat, |i: int| None::<SegmentView>).push(None) =~= Seq::new(k as nat, |i: int| None::<SegmentView>));
    }
}

/// An assembler with nothing buffered, fed `frames_per_seg` frames, hands
/// out nothing for the first `frames_per_seg - 1` of them and then one
/// segment holding all their bytes in order, from the first frame's
/// timestamp to the last one's, counting `frames_per_seg` frames; it then
/// has nothing buffered again, so the pattern repeats.
pub proof fn lemma_segment_every_frames_per_seg(a: AssemblerView, frames: Seq<(Seq<u8>, u64)>)
    requires
        a.frame_count == 0,
        a.buf.len() == 0,
        a.frames_per_seg >= 1,
        frames.len() == a.frames_per_seg,
    ensures
        ({
            let (s, outs) = spec_feed(a, frames);
            let n = a.frames_per_seg as int;
            &&& outs.len() == n
            &&& forall|k: int| 0 <= k < n - 1 ==> #[trigger] outs[k] is None
            &&& outs[n - 1] == Some(
                SegmentView {
                    data: spec_frame_bytes(frames),
                    start_ts_us: frames[0].1,
                    end_ts_us: frames[n - 1].1,
                    frame_count: a.frames_per_seg,
                },
            )
            &&& s.buf.len() == 0
            &&& s.frame_count == 0
            &&& s.frames_per_seg == a.frames_per_seg
        }),
{
    let n = a.frames_per_seg as int;
    let m = |f: (Seq<u8>, u64)| f.0;
    assert(frames.take(n) =~= frames);
    assert(frames.drop_last() =~= frames.take(n - 1));
    assert(frames.map_values(m) =~= frames.take(n - 1).map_values(m).push(frames[n - 1].0));
    frames.take(n - 1).map_values(m).lemma_flatten_push(frames[n - 1].0);
    if n == 1 {
        assert(frames.take(0) =~= Seq::<(Seq<u8>, u64)>::empty());
        assert(frames.take(0).map_values(m) =~= Seq::<Seq<u8>>::empty());
        assert(spec_feed(a, frames.drop_last()) == (a, Seq::<Option<SegmentView>>::empty()));
        assert(a.buf =~= Seq::<u8>::empty());
    } else {
        lemma_feed_prefix(a, frames, n - 1);
    }
}

/// The bytes of the segments handed out, one after another.
pub open spec fn spec_emitted_bytes(outs: Seq<Option<SegmentView>>) -> Seq<u8>
    decreases outs.len(),
{
    if outs.len() == 0 {
        Seq::empty()
    } else {
        spec_emitted_bytes(outs.drop_last()) + match outs.last() {
            Some(seg) => seg.data,
            None => Seq::empty(),
        }
    }
}

/// How many segments were handed out.
pub open spec fn spec_emitted_count(outs: Seq<Option<SegmentView>>) -> nat
    decreases outs.len(),
{
    if outs.len() == 0 {
        0
    } else {
        spec_emitted_count(outs.drop_last()) + if outs.last() is Some { 1nat } else { 0nat }
    }
}

proof fn lemma_mod_step(k: int, f: int)
    requires
        k >= 1,
        f >= 1,
    ensures
        0 <= (k - 1) % f < f,
        (k - 1) % f <= k - 1,
        (k - 1) % f + 1 == f ==> k % f == 0 && k / f == (k - 1) / f + 1,
        (k - 1) % f + 1 < f ==> k % f == (k - 1) % f + 1 && k / f == (k - 1) / f,
{
    let q = (k - 1) / f;
    let c = (k - 1) % f;
    assert(k - 1 == q * f + c && 0 <= c < f && q >= 0) by (nonlinear_arith)
        requires
            f > 0,
            k - 1 >= 0,
            q == (k - 1) / f,
            c == (k - 1) % f,
    ;
    assert(c <= k - 1) by (nonlinear_arith)
        requires
            k - 1 == q * f + c,
            q >= 0,
            f > 0,
    ;
    if c + 1 == f {
        assert(k == (q + 1) * f + 0) by (nonlinear_arith)
            requires
                k - 1 == q * f + c,
                c + 1 == f,
        ;
        vstd::arithmetic::div_mod::lemma_fundamental_div_mod_converse(k, f, q + 1, 0);
    } else {
        assert(k == q * f + (c + 1));
        vstd::arithmetic::div_mod::lemma_fundamental_div_mod_converse(k, f, q, c + 1);
    }
}

} // verus!
