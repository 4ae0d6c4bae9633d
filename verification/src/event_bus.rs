//! Event bus protocol: event types, payloads and the wire framing shared with
//! the other daemons.
//!
//! Wire protocol (same as the C shared/event_bus.h):
//!   [u32 LE: event_type] [u64 LE: timestamp_us] [u32 LE: payload_len] [payload bytes (JSON)]
//!
//! Subscribe message: [0xFF] [u32 LE: event_type]
//!
//! The JSON text of a payload is produced and parsed by the application;
//! this module decides which payload an event carries and frames the bytes.

use vstd::prelude::*;
use vstd::bytes::*;
use vstd::slice::*;

verus! {

/// Length of the fixed event header on the wire.
pub const EVENT_HEADER_LEN: usize = 16;

/// First byte of a subscribe message.
pub const SUBSCRIBE_MARKER: u8 = 0xFF;

// ── Event types — mirrors events.h ───────────────────────────────────────────

#[derive(Debug, Clone, Copy, PartialEq, Eq, Structural)]
pub enum EventType {
    // media-daemon
    VoiceActivityStart,
    VoiceActivityEnd,
    CollisionPrerollTag,
    // ai-daemon
    CollisionDetected,
    ObjectDetected,
    TranscriptReady,
    IntentClassified,
    WakeWordDetected,
    // cloud-daemon
    LteConnected,
    LteDisconnected,
    LlmResponseReady,
    UploadComplete,
    // power-daemon
    SystemDriving,
    SystemParked,
    SystemResumed,
    SuspendRequested,
    SuspendAck,
}

/// The numeric identifier of each event type in events.h.
pub open spec fn spec_event_id(t: EventType) -> u32 {
    match t {
        EventType::VoiceActivityStart => 0x01,
        EventType::VoiceActivityEnd => 0x02,
        EventType::CollisionPrerollTag => 0x03,
        EventType::CollisionDetected => 0x10,
        EventType::ObjectDetected => 0x11,
        EventType::TranscriptReady => 0x12,
        EventType::IntentClassified => 0x13,
        EventType::WakeWordDetected => 0x14,
        EventType::LteConnected => 0x20,
        EventType::LteDisconnected => 0x21,
        EventType::LlmResponseReady => 0x22,
        EventType::UploadComplete => 0x23,
        EventType::SystemDriving => 0x30,
        EventType::SystemParked => 0x31,
        EventType::SystemResumed => 0x32,
        EventType::SuspendRequested => 0x33,
        EventType::SuspendAck => 0x34,
    }
}

/// How a received identifier is read back as an event type.  Identifiers the
/// media daemon does not act on, and unknown identifiers, read as
/// `SystemDriving`.
pub open spec fn spec_event_type_from_wire(id: u32) -> EventType {
    if id == 0x01 {
        EventType::VoiceActivityStart
    } else if id == 0x03 {
        EventType::CollisionPrerollTag
    } else if id == 0x10 {
        EventType::CollisionDetected
    } else if id == 0x11 {
        EventType::ObjectDetected
    } else if id == 0x12 {
        EventType::TranscriptReady
    } else if id == 0x13 {
        EventType::IntentClassified
    } else if id == 0x14 {
        EventType::WakeWordDetected
    } else if id == 0x20 {
        EventType::LteConnected
    } else if id == 0x21 {
        EventType::LteDisconnected
    } else if id == 0x22 {
        EventType::LlmResponseReady
    } else if id == 0x33 {
        EventType::SuspendRequested
    } else if id == 0x34 {
        EventType::SuspendAck
    } else {
        EventType::SystemDriving
    }
}

/// The event types whose identifier reads back as the same type.
pub open spec fn survives_wire_type(t: EventType) -> bool {
    !(t is VoiceActivityEnd || t is UploadComplete || t is SystemParked || t is SystemResumed)
}

impl EventType {
    /// The identifier of this event type on the wire.
    pub fn to_u32(self) -> (id: u32)
        ensures
            id == spec_event_id(self),
    {
        match self {
            EventType::VoiceActivityStart => 0x01,
            EventType::VoiceActivityEnd => 0x02,
            EventType::CollisionPrerollTag => 0x03,
            EventType::CollisionDetected => 0x10,
            EventType::ObjectDetected => 0x11,
            EventType::TranscriptReady => 0x12,
            EventType::IntentClassified => 0x13,
            EventType::WakeWordDetected => 0x14,
            EventType::LteConnected => 0x20,
            EventType::LteDisconnected => 0x21,
            EventType::LlmResponseReady => 0x22,
            EventType::UploadComplete => 0x23,
            EventType::SystemDriving => 0x30,
            EventType::SystemParked => 0x31,
            EventType::SystemResumed => 0x32,
            EventType::SuspendRequested => 0x33,
            EventType::SuspendAck => 0x34,
        }
    }

    /// Reads a received identifier as an event type (unknown ones read as
    /// `SystemDriving`).
    pub fn from_wire_id(id: u32) -> (t: EventType)
        ensures
            t == spec_event_type_from_wire(id),
    {
        match id {
            0x01 => EventType::VoiceActivityStart,
            0x03 => EventType::CollisionPrerollTag,
            0x10 => EventType::CollisionDetected,
            0x11 => EventType::ObjectDetected,
            0x12 => EventType::TranscriptReady,
            0x13 => EventType::IntentClassified,
            0x14 => EventType::WakeWordDetected,
            0x20 => EventType::LteConnected,
            0x21 => EventType::LteDisconnected,
            0x22 => EventType::LlmResponseReady,
            0x33 => EventType::SuspendRequested,
            0x34 => EventType::SuspendAck,
            _ => EventType::SystemDriving,
        }
    }
}

// ── Payload types ─────────────────────────────────────────────────────────────

/// Collision report.  `confidence_bits` holds the IEEE-754 bit pattern of
/// the `f32` detection confidence (`f32::to_bits`), which the library only
/// carries through.
#[derive(Debug, Default)]
pub struct CollisionPayload {
    pub confidence_bits: u32,
    pub clip_id: u32,
}

#[derive(Debug, Default)]
pub struct IntentPayload {
    pub transcript: String,
    pub lang: String,
    pub intent: u32,
}

#[derive(Debug, Default)]
pub struct WakePayload {
    pub reason: u32,
}

#[derive(Debug, Default)]
pub struct LlmPayload {
    pub response: String,
    pub lang: String,
}

// ── Event envelope ────────────────────────────────────────────────────────────

#[derive(Debug)]
pub struct DashcamEvent {
    pub event_type: EventType,
    pub timestamp_us: u64,
    pub collision: Option<CollisionPayload>,
    pub intent: Option<IntentPayload>,
    pub wake: Option<WakePayload>,
    pub llm: Option<LlmPayload>,
}

#[verifier::external_type_specification]
#[verifier::external_body]
pub struct ExSystemTime(std::time::SystemTime);

#[verifier::external_type_specification]
#[verifier::external_body]
pub struct ExSystemTimeError(std::time::SystemTimeError);

/// `std::time::SystemTime::now`: the wall clock.  The clock is outside the
/// library: nothing is promised of the value.
#[verifier::external_body]
fn system_time_now() -> std::time::SystemTime {
    std::time::SystemTime::now()
}

/// `SystemTime::duration_since(UNIX_EPOCH)`: how long after the UNIX epoch
/// `t` is, or an error when `t` is before it.  Nothing is promised of the
/// value.
#[verifier::external_body]
fn since_unix_epoch(t: &std::time::SystemTime) -> Result<core::time::Duration, std::time::SystemTimeError> {
    t.duration_since(std::time::UNIX_EPOCH)
}

/// `Duration::as_micros`: the whole microseconds in `d`.  `Duration` is
/// opaque here, so nothing is promised of the value.
#[verifier::external_body]
fn duration_as_micros(d: &core::time::Duration) -> u128 {
    d.as_micros()
}

/// A reading of the wall clock: the whole microseconds since the UNIX
/// epoch, or `None` when the clock is before the epoch.
fn read_clock() -> (reading: Option<u128>) {
    match since_unix_epoch(&system_time_now()) {
        Ok(d) => Some(duration_as_micros(&d)),
        Err(_) => None,
    }
}

/// The event timestamp a clock reading gives: 0 before the epoch, otherwise
/// the microseconds truncated to 64 bits.
pub open spec fn spec_timestamp_from_clock(reading: Option<u128>) -> u64 {
    match reading {
        Some(m) => m as u64,
        None => 0,
    }
}

/// A clock reading that is not later than another: before the epoch comes
/// first, and after it the microseconds are ordered.
pub open spec fn spec_clock_not_after(a: Option<u128>, b: Option<u128>) -> bool {
    match (a, b) {
        (None, _) => true,
        (Some(_), None) => false,
        (Some(x), Some(y)) => x <= y,
    }
}

/// The event timestamp of a clock `reading` (microseconds since the UNIX
/// epoch, `None` before it): 0 before the epoch, otherwise the microseconds
/// truncated to 64 bits.
pub fn timestamp_from_clock(reading: Option<u128>) -> (t: u64)
    ensures
        t == spec_timestamp_from_clock(reading),
{
    match reading {
        Some(m) => m as u64,
        None => 0,
    }
}

/// Wall-clock time in microseconds since the UNIX epoch, as
/// `timestamp_from_clock` turns the current clock reading into one.
pub fn now_us() -> u64 {
    timestamp_from_clock(read_clock())
}

/// Timestamps follow the clock: of two clock readings, the later one never
/// gives an earlier timestamp, as long as it is below 2^64 microseconds
/// (some 584 000 years after the epoch), where the truncation to 64 bits
/// would wrap.
pub proof fn lemma_timestamps_follow_clock(a: Option<u128>, b: Option<u128>)
    requires
        spec_clock_not_after(a, b),
        b matches Some(m) ==> m <= u64::MAX,
    ensures
        spec_timestamp_from_clock(a) <= spec_timestamp_from_clock(b),
{
}

impl DashcamEvent {
    /// The acknowledgement of a suspend request, stamped `timestamp_us`.
    pub fn suspend_ack_at(timestamp_us: u64) -> (evt: Self)
        ensures
            evt.event_type == EventType::SuspendAck,
            evt.timestamp_us == timestamp_us,
            evt.collision is None,
            evt.intent is None,
            evt.wake is None,
            evt.llm is None,
    {
        DashcamEvent {
            event_type: EventType::SuspendAck,
            timestamp_us,
            collision: None,
            intent: None,
            wake: None,
            llm: None,
        }
    }

    /// The acknowledgement of a suspend request, stamped with the current
    /// time: `suspend_ack_at` of the timestamp that `timestamp_from_clock`
    /// gives for the clock reading.  What the clock reads is outside the
    /// library, so the timestamp's value is not stated.
    pub fn suspend_ack() -> (evt: Self)
        ensures
            evt.event_type == EventType::SuspendAck,
            evt.collision is None,
            evt.intent is None,
            evt.wake is None,
            evt.llm is None,
    {
        Self::suspend_ack_at(timestamp_from_clock(read_clock()))
    }
}

// ── Payload selection ─────────────────────────────────────────────────────────

/// Which field of a `DashcamEvent` travels as the JSON payload.
#[derive(Debug, Clone, Copy, PartialEq, Eq, Structural)]
pub enum PayloadField {
    Collision,
    Intent,
    Wake,
    Llm,
    NoPayload,
}

/// Collision reports ride on collision and pre-roll tag events.
pub open spec fn spec_carries_collision(t: EventType) -> bool {
    t is CollisionDetected || t is CollisionPrerollTag
}

pub open spec fn spec_payload_field(t: EventType) -> PayloadField {
    if spec_carries_collision(t) {
        PayloadField::Collision
    } else if t is IntentClassified {
        PayloadField::Intent
    } else if t is WakeWordDetected {
        PayloadField::Wake
    } else if t is LlmResponseReady {
        PayloadField::Llm
    } else {
        PayloadField::NoPayload
    }
}

/// Whether an event of type `t` carries a collision report.
pub fn carries_collision(t: EventType) -> (b: bool)
    ensures
        b == spec_carries_collision(t),
{
    match t {
        EventType::CollisionDetected | EventType::CollisionPrerollTag => true,
        _ => false,
    }
}

/// The field of an event of type `t` that is serialised as its payload.
pub fn payload_field(t: EventType) -> (f: PayloadField)
    ensures
        f == spec_payload_field(t),
{
    if carries_collision(t) {
        PayloadField::Collision
    } else {
        match t {
            EventType::IntentClassified => PayloadField::Intent,
            EventType::WakeWordDetected => PayloadField::Wake,
            EventType::LlmResponseReady => PayloadField::Llm,
            _ => PayloadField::NoPayload,
        }
    }
}

// ── Wire encoding ─────────────────────────────────────────────────────────────

/// The bytes of one framed event: header, then the payload (empty for event
/// types that carry none).  The length field is the payload length as a
/// `u32`.
pub open spec fn spec_encode_event(t: EventType, timestamp_us: u64, serialized: Seq<u8>) -> Seq<u8> {
    let payload = if spec_payload_field(t) is NoPayload { Seq::<u8>::empty() } else { serialized };
    spec_u32_to_le_bytes(spec_event_id(t))
        + spec_u64_to_le_bytes(timestamp_us)
        + spec_u32_to_le_bytes(payload.len() as u32)
        + payload
}

/// Frames `evt` for the wire.  `serialized` is the JSON text of the field
/// that `payload_field(evt.event_type)` names; for event types without a
/// payload it is not sent.
pub fn encode_event(evt: &DashcamEvent, serialized: &[u8]) -> (buf: Vec<u8>)
    ensures
        buf@ == spec_encode_event(evt.event_type, evt.timestamp_us, serialized@),
{
    let empty: [u8; 0] = [];
    let payload: &[u8] = if payload_field(evt.event_type) == PayloadField::NoPayload {
        empty.as_slice()
    } else {
        serialized
    };
    proof {
        if spec_payload_field(evt.event_type) is NoPayload {
            assert(payload@ =~= Seq::<u8>::empty());
        }
    }
    let mut buf = u32_to_le_bytes(evt.event_type.to_u32());
    let mut ts = u64_to_le_bytes(evt.timestamp_us);
    buf.append(&mut ts);
    let mut len = u32_to_le_bytes(payload.len() as u32);
    buf.append(&mut len);
    let mut body = slice_to_vec(payload);
    buf.append(&mut body);
    buf
}

/// The fixed part of a received event.
#[derive(Debug, Clone, Copy, PartialEq, Eq, Structural)]
pub struct EventHeader {
    pub type_id: u32,
    pub timestamp_us: u64,
    pub payload_len: u32,
}

/// Reads the 16 header bytes of a frame; `None` unless exactly 16 bytes are given.
pub open spec fn spec_parse_header(bytes: Seq<u8>) -> Option<EventHeader> {
    if bytes.len() == EVENT_HEADER_LEN {
        Some(
            EventHeader {
                type_id: spec_u32_from_le_bytes(bytes.subrange(0, 4)),
                timestamp_us: spec_u64_from_le_bytes(bytes.subrange(4, 12)),
                payload_len: spec_u32_from_le_bytes(bytes.subrange(12, 16)),
            },
        )
    } else {
        None
    }
}

/// Parses the 16-byte event header.
pub fn parse_header(bytes: &[u8]) -> (h: Option<EventHeader>)
    ensures
        h == spec_parse_header(bytes@),
{
    if bytes.len() != EVENT_HEADER_LEN {
        return None;
    }
    let type_id = u32_from_le_bytes(slice_subrange(bytes, 0, 4));
    let timestamp_us = u64_from_le_bytes(slice_subrange(bytes, 4, 12));
    let payload_len = u32_from_le_bytes(slice_subrange(bytes, 12, 16));
    Some(EventHeader { type_id, timestamp_us, payload_len })
}

/// Builds the received event from its header and the collision report that
/// was read from its payload (kept only for event types that carry one).
pub fn decode_event(header: &EventHeader, collision: Option<CollisionPayload>) -> (evt:
    DashcamEvent)
    ensures
        evt.event_type == spec_event_type_from_wire(header.type_id),
        evt.timestamp_us == header.timestamp_us,
        evt.collision == (if spec_carries_collision(evt.event_type) {
            collision
        } else {
            None
        }),
        evt.intent is None,
        evt.wake is None,
        evt.llm is None,
{
    let event_type = EventType::from_wire_id(header.type_id);
    let collision = if carries_collision(event_type) {
        collision
    } else {
        None
    };
    DashcamEvent {
        event_type,
        timestamp_us: header.timestamp_us,
        collision,
        intent: None,
        wake: None,
        llm: None,
    }
}

// ── Subscribe message ─────────────────────────────────────────────────────────

pub open spec fn spec_subscribe_message(t: EventType) -> Seq<u8> {
    seq![SUBSCRIBE_MARKER] + spec_u32_to_le_bytes(spec_event_id(t))
}

/// The message that subscribes to events of type `t`.
pub fn subscribe_message(t: EventType) -> (msg: Vec<u8>)
    ensures
        msg@ == spec_subscribe_message(t),
{
    let mut msg: Vec<u8> = Vec::new();
    msg.push(SUBSCRIBE_MARKER);
    let mut id = u32_to_le_bytes(t.to_u32());
    msg.append(&mut id);
    proof {
        assert(msg@ =~= spec_subscribe_message(t));
    }
    msg
}

// ── Laws ──────────────────────────────────────────────────────────────────────

/// Reading back a framed event: the header of the bytes that `encode_event`
/// produces gives the event's identifier, its timestamp and the payload
/// length; the rest of the frame is exactly the payload; and the identifier
/// reads back as the same event type for every type the media daemon
/// receives (all but `VoiceActivityEnd`, `UploadComplete`, `SystemParked`
/// and `SystemResumed`).
pub proof fn lemma_encode_parse_round_trip(t: EventType, timestamp_us: u64, serialized: Seq<u8>)
    requires
        serialized.len() <= u32::MAX,
    ensures
        ({
            let frame = spec_encode_event(t, timestamp_us, serialized);
            let payload = if spec_payload_field(t) is NoPayload {
                Seq::<u8>::empty()
            } else {
                serialized
            };
            &&& frame.len() == EVENT_HEADER_LEN + payload.len()
            &&& spec_parse_header(frame.subrange(0, 16)) == Some(
                EventHeader {
                    type_id: spec_event_id(t),
                    timestamp_us,
                    payload_len: payload.len() as u32,
                },
            )
            &&& frame.subrange(16, frame.len() as int) == payload
            &&& survives_wire_type(t) ==> spec_event_type_from_wire(spec_event_id(t)) == t
        }),
{
    lemma_auto_spec_u32_to_from_le_bytes();
    lemma_auto_spec_u64_to_from_le_bytes();
    let frame = spec_encode_event(t, timestamp_us, serialized);
    let payload = if spec_payload_field(t) is NoPayload {
        Seq::<u8>::empty()
    } else {
        serialized
    };
    let a = spec_u32_to_le_bytes(spec_event_id(t));
    let b = spec_u64_to_le_bytes(timestamp_us);
    let c = spec_u32_to_le_bytes(payload.len() as u32);
    assert(frame == a + b + c + payload);
    let head = frame.subrange(0, 16);
    assert(head.subrange(0, 4) =~= a);
    assert(head.subrange(4, 12) =~= b);
    assert(head.subrange(12, 16) =~= c);
    assert(frame.subrange(16, frame.len() as int) =~= payload);
}

/// Which field travels as an event's payload is fixed by its type, as in
/// events.h: a collision report for collision and pre-roll tag events, the
/// intent for `IntentClassified`, the wake reason for `WakeWordDetected`,
/// the LLM response for `LlmResponseReady`, and nothing for every other
/// type.  A frame of a type with a payload carries the serialised field in
/// full, after a length field of its size; a frame of any other type is
/// the 16-byte header alone, with length 0.
pub proof fn lemma_payload_follows_event_type(t: EventType, timestamp_us: u64, serialized: Seq<u8>)
    requires
        serialized.len() <= u32::MAX,
    ensures
        (t is CollisionDetected || t is CollisionPrerollTag) ==> spec_payload_field(t)
            == PayloadField::Collision,
        t is IntentClassified ==> spec_payload_field(t) == PayloadField::Intent,
        t is WakeWordDetected ==> spec_payload_field(t) == PayloadField::Wake,
        t is LlmResponseReady ==> spec_payload_field(t) == PayloadField::Llm,
        ({
            let frame = spec_encode_event(t, timestamp_us, serialized);
            let carries = t is CollisionDetected || t is CollisionPrerollTag || t is IntentClassified
                || t is WakeWordDetected || t is LlmResponseReady;
            &&& frame.subrange(0, 4) == spec_u32_to_le_bytes(spec_event_id(t))
            &&& frame.subrange(4, 12) == spec_u64_to_le_bytes(timestamp_us)
            &&& carries ==> {
                &&& frame.len() == 16 + serialized.len()
                &&& frame.subrange(12, 16) == spec_u32_to_le_bytes(serialized.len() as u32)
                &&& frame.subrange(16, frame.len() as int) == serialized
            }
            &&& !carries ==> {
                &&& spec_payload_field(t) == PayloadField::NoPayload
                &&& frame.len() == 16
                &&& frame.subrange(12, 16) == spec_u32_to_le_bytes(0)
            }
        }),
{
    lemma_auto_spec_u32_to_from_le_bytes();
    lemma_auto_spec_u64_to_from_le_bytes();
    let frame = spec_encode_event(t, timestamp_us, serialized);
    let payload = if spec_payload_field(t) is NoPayload {
        Seq::<u8>::empty()
    } else {
        serialized
    };
    let a = spec_u32_to_le_bytes(spec_event_id(t));
    let b = spec_u64_to_le_bytes(timestamp_us);
    let c = spec_u32_to_le_bytes(payload.len() as u32);
    assert(frame == a + b + c + payload);
    assert(frame.subrange(0, 4) =~= a);
    assert(frame.subrange(4, 12) =~= b);
    assert(frame.subrange(12, 16) =~= c);
    assert(frame.subrange(16, frame.len() as int) =~= payload);
}

} // verus!
