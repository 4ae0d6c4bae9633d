//! Voice-activity gating of captured audio.
//!
//! Microphone frames of 30 ms come from the application's ALSA capture loop.
//! Each is judged by the WebRTC voice activity detector; only voice-active
//! frames are kept, and every ~1 s of voice audio is handed out as one chunk
//! for ai-daemon — silence is dropped before it ever reaches the STT
//! pipeline.  Chunks travel to ai-daemon length-prefixed:
//!   [u32 little-endian: n_samples] [n_samples × i16 little-endian samples]

use vstd::prelude::*;
use vstd::bytes::*;
use webrtc_vad::{SampleRate, Vad};

verus! {

// ── Constants ─────────────────────────────────────────────────────────────────

/// Hz — Whisper tiny expects 16kHz.
pub const SAMPLE_RATE: u32 = 16_000;

/// Mono.
pub const CHANNELS: u32 = 1;

/// VAD frame size (10 / 20 / 30ms supported).
pub const FRAME_MS: u32 = 30;

/// Samples per VAD frame (= 480).
pub const FRAME_SAMPLES: u32 = SAMPLE_RATE * FRAME_MS / 1000;

/// ~1 second of audio per chunk sent to ai-daemon.
pub const FRAMES_PER_CHUNK: usize = 34;

/// Samples per chunk sent to ai-daemon (= 16 320).
pub const CHUNK_SAMPLES: usize = 480 * 34;

// ── Outside types and calls ──────────────────────────────────────────────────

#[verifier::external_type_specification]
#[verifier::external_body]
pub struct ExVad(Vad);

#[verifier::external_type_specification]
#[verifier::external_body]
pub struct ExSampleRate(SampleRate);

/// `webrtc_vad::SampleRate::try_from(hz)`, for one of the four rates the
/// crate supports (8000, 16000, 32000, 48000 Hz), for which it returns `Ok`.
#[verifier::external_body]
fn vad_sample_rate(hz: i32) -> SampleRate
    requires
        hz == 8000 || hz == 16000 || hz == 32000 || hz == 48000,
{
    SampleRate::try_from(hz).unwrap()
}

/// `webrtc_vad::Vad::new_with_rate(rate)`: a detector for `rate` in the
/// crate's default `Quality` mode (the lowest false-positive rate).
#[verifier::external_body]
fn vad_new_with_rate(rate: SampleRate) -> Vad {
    Vad::new_with_rate(rate)
}

/// `webrtc_vad::Vad::is_voice_segment(frame)`: `Ok(true)` for a voice-active
/// frame, `Ok(false)` for silence, `Err(())` for an invalid frame length.
/// The detector adapts to the audio it has seen, so the answer depends on
/// its history; nothing is promised of it.
#[verifier::external_body]
fn vad_is_voice_segment(vad: &mut Vad, frame: &[i16]) -> Result<bool, ()>
    requires
        frame@.len() > 0,
{
    vad.is_voice_segment(frame)
}

// ── Chunking ──────────────────────────────────────────────────────────────────

/// One 30 ms frame arrives, judged voice-active or not: voice frames are
/// appended to the pending chunk, silence is dropped, and once the chunk
/// holds `CHUNK_SAMPLES` samples it is handed out and a new one begins.
pub open spec fn spec_push_frame(buf: Seq<i16>, frame: Seq<i16>, is_voice: bool) -> (Seq<i16>, Option<Seq<i16>>) {
    if !is_voice {
        (buf, None)
    } else if buf.len() + frame.len() >= CHUNK_SAMPLES {
        (Seq::empty(), Some(buf + frame))
    } else {
        (buf + frame, None)
    }
}

/// The pending chunk is a whole number of frames, short of a full chunk.
pub open spec fn spec_chunk_inv(buf: Seq<i16>) -> bool {
    &&& buf.len() % (FRAME_SAMPLES as nat) == 0
    &&& buf.len() < CHUNK_SAMPLES
}

/// Collects voice-active frames into chunks of `CHUNK_SAMPLES` samples.
pub struct VoiceChunker {
    chunk_buf: Vec<i16>,
}

impl VoiceChunker {
    pub closed spec fn view(&self) -> Seq<i16> {
        self.chunk_buf@
    }

    /// No voice audio pending.
    pub fn new() -> (c: Self)
        ensures
            c.view() == Seq::<i16>::empty(),
    {
        VoiceChunker { chunk_buf: Vec::with_capacity(CHUNK_SAMPLES) }
    }

    /// Takes one frame of `FRAME_SAMPLES` samples and the detector's verdict
    /// on it; returns a full chunk when one is complete.
    pub fn push_frame(&mut self, frame: &[i16], is_voice: bool) -> (chunk: Option<Vec<i16>>)
        requires
            frame@.len() == FRAME_SAMPLES,
            spec_chunk_inv(old(self).view()),
        ensures
            spec_chunk_inv(final(self).view()),
            (final(self).view(), match chunk {
                Some(c) => Some(c@),
                None => None,
            }) == spec_push_frame(old(self).view(), frame@, is_voice),
            chunk matches Some(c) ==> c@.len() == CHUNK_SAMPLES,
            !is_voice ==> chunk is None,
    {
        let ghost l0: int = self.chunk_buf@.len() as int;
        if is_voice {
            let mut samples = vstd::slice::slice_to_vec(frame);
            self.chunk_buf.append(&mut samples);
        }
        if self.chunk_buf.len() >= CHUNK_SAMPLES {
            let mut chunk: Vec<i16> = Vec::with_capacity(CHUNK_SAMPLES);
            std::mem::swap(&mut chunk, &mut self.chunk_buf);
            proof {
                assert(l0 + 480 <= 480 * 34) by (nonlinear_arith)
                    requires
                        l0 % 480 == 0,
                        0 <= l0 < 480 * 34,
                {
                    let q = l0 / 480;
                    assert(l0 == 480 * q);
                    assert(q < 34);
                }
            }
            return Some(chunk);
        }
        proof {
            if is_voice {
                let l1: int = self.chunk_buf@.len() as int;
                assert(l1 % 480 == 0) by (nonlinear_arith)
                    requires
                        l1 == l0 + 480,
                        l0 % 480 == 0,
                ;
            }
        }
        None
    }
}

/// The chunker run over `frames` (each frame's samples and the verdict on
/// it), one after another, from pending samples `buf`: what is pending at
/// the end, and what each frame handed out.
pub open spec fn spec_chunker_run(buf: Seq<i16>, frames: Seq<(Seq<i16>, bool)>) -> (Seq<i16>, Seq<Option<Seq<i16>>>)
    decreases frames.len(),
{
    if frames.len() == 0 {
        (buf, Seq::empty())
    } else {
        let (b, outs) = spec_chunker_run(buf, frames.drop_last());
        let (b2, o) = spec_push_frame(b, frames.last().0, frames.last().1);
        (b2, outs.push(o))
    }
}

/// The samples of the voice-active frames, back to back.
pub open spec fn spec_voice_samples(frames: Seq<(Seq<i16>, bool)>) -> Seq<i16>
    decreases frames.len(),
{
    if frames.len() == 0 {
        Seq::empty()
    } else {
        spec_voice_samples(frames.drop_last()) + if frames.last().1 {
            frames.last().0
        } else {
            Seq::empty()
        }
    }
}

/// The samples of the chunks handed out, back to back.
pub open spec fn spec_chunk_samples(outs: Seq<Option<Seq<i16>>>) -> Seq<i16>
    decreases outs.len(),
{
    if outs.len() == 0 {
        Seq::empty()
    } else {
        spec_chunk_samples(outs.drop_last()) + match outs.last() {
            Some(c) => c,
            None => Seq::empty(),
        }
    }
}

/// No sample is lost or sent twice: over any run of frames fed to a
/// chunker with nothing pending, the chunks handed out, followed by what is
/// still pending, are exactly the samples of the voice-active frames, in
/// order; silent frames contribute nothing.  In particular a chunk leaves
/// nothing behind: whatever completes a chunk goes out in it.
pub proof fn lemma_chunks_carry_each_voice_sample_once(frames: Seq<(Seq<i16>, bool)>)
    ensures
        ({
            let (pending, outs) = spec_chunker_run(Seq::empty(), frames);
            &&& outs.len() == frames.len()
            &&& spec_chunk_samples(outs) + pending == spec_voice_samples(frames)
            &&& forall|i: int| 0 <= i < outs.len() && (#[trigger] outs[i]) is Some ==> frames[i].1
        }),
    decreases frames.len(),
{
    if frames.len() == 0 {
        assert(Seq::<i16>::empty() + Seq::<i16>::empty() =~= Seq::<i16>::empty());
    } else {
        let pre = frames.drop_last();
        lemma_chunks_carry_each_voice_sample_once(pre);
        let (b, outs0) = spec_chunker_run(Seq::empty(), pre);
        let (pending, outs) = spec_chunker_run(Seq::empty(), frames);
        let f = frames.last();
        assert(outs.drop_last() =~= outs0);
        assert(frames.drop_last() =~= pre);
        if !f.1 {
            assert(spec_chunk_samples(outs) + pending =~= spec_chunk_samples(outs0) + b);
            assert(spec_voice_samples(frames) =~= spec_voice_samples(pre));
        } else if b.len() + f.0.len() >= CHUNK_SAMPLES {
            assert(spec_chunk_samples(outs) + pending =~= spec_chunk_samples(outs0) + b + f.0);
        } else {
            assert(spec_chunk_samples(outs) + pending =~= spec_chunk_samples(outs0) + b + f.0);
        }
        assert forall|i: int| 0 <= i < outs.len() && (#[trigger] outs[i]) is Some implies frames[i].1 by {
            if i < outs.len() - 1 {
                assert(outs[i] == outs0[i]);
                assert(frames[i] == pre[i]);
            }
        }
    }
}

/// A voice activity detector at `SAMPLE_RATE` followed by a chunker.
pub struct VoiceGate {
    vad: Vad,
    chunker: VoiceChunker,
}

impl VoiceGate {
    pub closed spec fn pending(&self) -> Seq<i16> {
        self.chunker.view()
    }

    /// A detector at 16 kHz in `Quality` mode (lowest false-positive rate),
    /// with no voice audio pending.
    pub fn new() -> (g: Self)
        ensures
            g.pending() == Seq::<i16>::empty(),
    {
        let rate = vad_sample_rate(SAMPLE_RATE as i32);
        VoiceGate { vad: vad_new_with_rate(rate), chunker: VoiceChunker::new() }
    }

    /// Handles one capture read of `n_read` samples into `frame`: a short
    /// read is skipped; a full frame is judged by the detector (an error
    /// counts as silence) and passed to the chunker.  Returns a full chunk
    /// when one is complete.
    pub fn process_frame(&mut self, frame: &[i16], n_read: usize) -> (chunk: Option<Vec<i16>>)
        requires
            frame@.len() == FRAME_SAMPLES,
            spec_chunk_inv(old(self).pending()),
        ensures
            spec_chunk_inv(final(self).pending()),
            n_read != FRAME_SAMPLES ==> chunk is None && final(self).pending() == old(self).pending(),
            n_read == FRAME_SAMPLES ==> exists|is_voice: bool|
                (final(self).pending(), match chunk {
                    Some(c) => Some(c@),
                    None => None,
                }) == #[trigger] spec_push_frame(old(self).pending(), frame@, is_voice),
            chunk matches Some(c) ==> c@.len() == CHUNK_SAMPLES,
    {
        if n_read != FRAME_SAMPLES as usize {
            return None;
        }
        let verdict = vad_is_voice_segment(&mut self.vad, frame);
        self.push_judged_frame(frame, verdict)
    }

    /// Passes a full frame on with the detector's `verdict` on it: the frame
    /// counts as voice exactly when the detector answered `Ok(true)`; a
    /// silent frame, or one the detector could not judge, is dropped.
    /// Returns a full chunk when one is complete.
    pub fn push_judged_frame(&mut self, frame: &[i16], verdict: Result<bool, ()>) -> (chunk: Option<Vec<i16>>)
        requires
            frame@.len() == FRAME_SAMPLES,
            spec_chunk_inv(old(self).pending()),
        ensures
            spec_chunk_inv(final(self).pending()),
            (final(self).pending(), match chunk {
                Some(c) => Some(c@),
                None => None,
            }) == spec_push_frame(old(self).pending(), frame@, verdict == Ok::<bool, ()>(true)),
            chunk matches Some(c) ==> c@.len() == CHUNK_SAMPLES,
    {
        let is_voice = match verdict {
            Ok(v) => v,
            Err(_) => false,
        };
        self.chunker.push_frame(frame, is_voice)
    }
}

/// The detector's verdict decides a frame's fate: judged voice-active, its
/// samples join the pending audio, or go out at the end of a chunk that also
/// takes all that was pending; judged silent, it changes nothing.
pub proof fn lemma_verdict_decides_frame(buf: Seq<i16>, frame: Seq<i16>)
    ensures
        ({
            let (b, o) = spec_push_frame(buf, frame, true);
            ||| o is None && b == buf + frame
            ||| o == Some(buf + frame) && b.len() == 0
        }),
        spec_push_frame(buf, frame, false) == (buf, None::<Seq<i16>>),
{
}

// ── Wire format to ai-daemon ─────────────────────────────────────────────────

/// The samples as consecutive little-endian 16-bit words.
pub open spec fn spec_samples_le(s: Seq<i16>) -> Seq<u8>
    decreases s.len(),
{
    if s.len() == 0 {
        Seq::empty()
    } else {
        spec_samples_le(s.drop_last()) + spec_u16_to_le_bytes(s.last() as u16)
    }
}

/// A chunk as sent to ai-daemon: the sample count, then the samples.
pub open spec fn spec_audio_chunk_message(s: Seq<i16>) -> Seq<u8> {
    spec_u32_to_le_bytes(s.len() as u32) + spec_samples_le(s)
}

/// Serialises a chunk for ai-daemon: 4-byte length header + raw i16 samples.
pub fn encode_audio_chunk(chunk: &[i16]) -> (msg: Vec<u8>)
    ensures
        msg@ == spec_audio_chunk_message(chunk@),
{
    let mut msg = u32_to_le_bytes(chunk.len() as u32);
    let n = chunk.len();
    let mut i: usize = 0;
    while i < n
        invariant
            i <= n,
            n == chunk@.len(),
            msg@ == spec_u32_to_le_bytes(chunk@.len() as u32) + spec_samples_le(chunk@.subrange(0, i as int)),
        decreases n - i,
    {
        let mut word = u16_to_le_bytes(chunk[i] as u16);
        proof {
            assert(chunk@.subrange(0, i + 1).drop_last() =~= chunk@.subrange(0, i as int));
        }
        msg.append(&mut word);
        proof {
            assert(msg@ =~= spec_u32_to_le_bytes(chunk@.len() as u32) + spec_samples_le(chunk@.subrange(0, i + 1)));
        }
        i = i + 1;
    }
    proof {
        assert(chunk@.subrange(0, n as int) =~= chunk@);
    }
    msg
}

/// Every sample takes two bytes on the wire.
pub proof fn lemma_audio_chunk_message_len(s: Seq<i16>)
    ensures
        spec_audio_chunk_message(s).len() == 4 + 2 * s.len(),
    decreases s.len(),
{
    lemma_auto_spec_u32_to_from_le_bytes();
    lemma_auto_spec_u16_to_from_le_bytes();
    lemma_samples_le_len(s);
}

proof fn lemma_samples_le_len(s: Seq<i16>)
    ensures
        spec_samples_le(s).len() == 2 * s.len(),
    decreases s.len(),
{
    lemma_auto_spec_u16_to_from_le_bytes();
    if s.len() > 0 {
        lemma_samples_le_len(s.drop_last());
    }
}

} // verus!
