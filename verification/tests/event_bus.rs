use media_daemon::event_bus::timestamp_from_clock;
use media_daemon::event_bus::{
    decode_event, encode_event, parse_header, payload_field, subscribe_message, CollisionPayload,
    DashcamEvent, EventHeader, EventType, IntentPayload, LlmPayload, PayloadField,
};
use serde_json::{Number, Value};

/// JSON text of a collision report, as the daemon serialises it.
fn collision_json(confidence: f32, clip_id: u32) -> Vec<u8> {
    let mut m = serde_json::Map::new();
    m.insert("confidence".to_string(), Value::Number(Number::from_f64(confidence as f64).unwrap()));
    m.insert("clip_id".to_string(), Value::Number(Number::from(clip_id)));
    serde_json::to_vec(&Value::Object(m)).unwrap()
}

fn no_payload_event(event_type: EventType, timestamp_us: u64) -> DashcamEvent {
    DashcamEvent { event_type, timestamp_us, collision: None, intent: None, wake: None, llm: None }
}

// ── encode_event wire format ──────────────────────────────────────────────

#[test]
fn test_encode_event_header_layout() {
    let evt = no_payload_event(EventType::SuspendAck, 0x0102_0304_0506_0708);

    let buf = encode_event(&evt, &[]);

    // Bytes 0..4 — event_type as u32 LE
    let type_id = u32::from_le_bytes(buf[0..4].try_into().unwrap());
    assert_eq!(type_id, EventType::SuspendAck.to_u32());

    // Bytes 4..12 — timestamp_us as u64 LE
    let ts = u64::from_le_bytes(buf[4..12].try_into().unwrap());
    assert_eq!(ts, 0x0102_0304_0506_0708);

    // Bytes 12..16 — payload_len as u32 LE (SuspendAck has no payload)
    let payload_len = u32::from_le_bytes(buf[12..16].try_into().unwrap());
    assert_eq!(payload_len, 0);
    assert_eq!(buf.len(), 16, "no-payload event must be exactly 16 bytes");
}

#[test]
fn test_encode_collision_event_includes_payload() {
    let evt = DashcamEvent {
        event_type: EventType::CollisionDetected,
        timestamp_us: 1_000_000,
        collision: Some(CollisionPayload { confidence_bits: 0.95f32.to_bits(), clip_id: 7 }),
        intent: None,
        wake: None,
        llm: None,
    };
    assert_eq!(payload_field(evt.event_type), PayloadField::Collision);

    let buf = encode_event(&evt, &collision_json(0.95, 7));
    assert!(buf.len() > 16, "collision event must carry a JSON payload");

    let payload_len = u32::from_le_bytes(buf[12..16].try_into().unwrap()) as usize;
    assert_eq!(buf.len(), 16 + payload_len);

    // The payload must round-trip through serde
    let payload: Value = serde_json::from_slice(&buf[16..]).unwrap();
    let confidence = payload["confidence"].as_f64().unwrap() as f32;
    assert!((confidence - 0.95_f32).abs() < 1e-4);
    assert_eq!(payload["clip_id"].as_u64().unwrap(), 7);
}

#[test]
fn test_encode_intent_event_includes_payload() {
    let evt = DashcamEvent {
        event_type: EventType::IntentClassified,
        timestamp_us: 2_000_000,
        collision: None,
        intent: Some(IntentPayload {
            transcript: "navigate home".into(),
            lang: "en".into(),
            intent: 3,
        }),
        wake: None,
        llm: None,
    };
    assert_eq!(payload_field(evt.event_type), PayloadField::Intent);

    let intent = evt.intent.as_ref().unwrap();
    let mut m = serde_json::Map::new();
    m.insert("transcript".to_string(), Value::String(intent.transcript.clone()));
    m.insert("lang".to_string(), Value::String(intent.lang.clone()));
    m.insert("intent".to_string(), Value::Number(Number::from(intent.intent)));
    let json = serde_json::to_vec(&Value::Object(m)).unwrap();

    let buf = encode_event(&evt, &json);
    let payload: Value = serde_json::from_slice(&buf[16..]).unwrap();
    assert_eq!(payload["transcript"], "navigate home");
    assert_eq!(payload["lang"], "en");
    assert_eq!(payload["intent"], 3);
}

#[test]
fn test_encode_llm_event_includes_payload() {
    let evt = DashcamEvent {
        event_type: EventType::LlmResponseReady,
        timestamp_us: 3_000_000,
        collision: None,
        intent: None,
        wake: None,
        llm: Some(LlmPayload { response: "Turn left in 200 metres".into(), lang: "zh".into() }),
    };
    assert_eq!(payload_field(evt.event_type), PayloadField::Llm);

    let llm = evt.llm.as_ref().unwrap();
    let mut m = serde_json::Map::new();
    m.insert("response".to_string(), Value::String(llm.response.clone()));
    m.insert("lang".to_string(), Value::String(llm.lang.clone()));
    let json = serde_json::to_vec(&Value::Object(m)).unwrap();

    let buf = encode_event(&evt, &json);
    let payload: Value = serde_json::from_slice(&buf[16..]).unwrap();
    assert_eq!(payload["lang"], "zh");
}

// ── encode / decode round-trip ────────────────────────────────────────────

#[test]
fn test_encode_decode_round_trip_suspend_ack() {
    let evt = DashcamEvent::suspend_ack();
    let encoded = encode_event(&evt, &[]);

    let header = parse_header(&encoded[..16]).unwrap();
    let decoded = decode_event(&header, None);
    assert_eq!(decoded.event_type, EventType::SuspendAck);
}

#[test]
fn test_encode_decode_round_trip_collision() {
    let evt = DashcamEvent {
        event_type: EventType::CollisionDetected,
        timestamp_us: 99_000_000,
        collision: Some(CollisionPayload { confidence_bits: 0.88f32.to_bits(), clip_id: 42 }),
        intent: None,
        wake: None,
        llm: None,
    };
    let encoded = encode_event(&evt, &collision_json(0.88, 42));

    let header = parse_header(&encoded[..16]).unwrap();
    assert_eq!(encoded.len(), 16 + header.payload_len as usize);
    // The report read back from the JSON payload.
    let payload: Value = serde_json::from_slice(&encoded[16..]).unwrap();
    let report = CollisionPayload {
        confidence_bits: (payload["confidence"].as_f64().unwrap() as f32).to_bits(),
        clip_id: payload["clip_id"].as_u64().unwrap() as u32,
    };
    let decoded = decode_event(&header, Some(report));

    assert_eq!(decoded.event_type, EventType::CollisionDetected);
    assert_eq!(decoded.timestamp_us, 99_000_000);
    let col = decoded.collision.unwrap();
    assert_eq!(col.clip_id, 42);
    assert!((f32::from_bits(col.confidence_bits) - 0.88_f32).abs() < 1e-4);
}

// ── Subscribe wire format ─────────────────────────────────────────────────

#[test]
fn test_subscribe_sends_0xff_marker_and_event_type() {
    let received = subscribe_message(EventType::CollisionDetected);
    assert_eq!(received.len(), 5);
    assert_eq!(received[0], 0xFF, "subscribe marker must be 0xFF");
    let et = u32::from_le_bytes(received[1..5].try_into().unwrap());
    assert_eq!(et, EventType::CollisionDetected.to_u32());
}

// ── EventType values match the C header constants ─────────────────────────

#[test]
fn test_event_type_discriminants_match_c_header() {
    assert_eq!(EventType::VoiceActivityStart.to_u32(), 0x01);
    assert_eq!(EventType::VoiceActivityEnd.to_u32(), 0x02);
    assert_eq!(EventType::CollisionPrerollTag.to_u32(), 0x03);
    assert_eq!(EventType::CollisionDetected.to_u32(), 0x10);
    assert_eq!(EventType::ObjectDetected.to_u32(), 0x11);
    assert_eq!(EventType::TranscriptReady.to_u32(), 0x12);
    assert_eq!(EventType::IntentClassified.to_u32(), 0x13);
    assert_eq!(EventType::WakeWordDetected.to_u32(), 0x14);
    assert_eq!(EventType::LteConnected.to_u32(), 0x20);
    assert_eq!(EventType::LteDisconnected.to_u32(), 0x21);
    assert_eq!(EventType::LlmResponseReady.to_u32(), 0x22);
    assert_eq!(EventType::UploadComplete.to_u32(), 0x23);
    assert_eq!(EventType::SystemDriving.to_u32(), 0x30);
    assert_eq!(EventType::SystemParked.to_u32(), 0x31);
    assert_eq!(EventType::SystemResumed.to_u32(), 0x32);
    assert_eq!(EventType::SuspendRequested.to_u32(), 0x33);
    assert_eq!(EventType::SuspendAck.to_u32(), 0x34);
}

// ── suspend_ack constructor ───────────────────────────────────────────────

#[test]
fn test_suspend_ack_has_no_payloads() {
    let evt = DashcamEvent::suspend_ack();
    assert_eq!(evt.event_type, EventType::SuspendAck);
    assert!(evt.collision.is_none());
    assert!(evt.intent.is_none());
    assert!(evt.wake.is_none());
    assert!(evt.llm.is_none());
    assert!(evt.timestamp_us > 0, "timestamp must be set");
}

// ── Further cases ─────────────────────────────────────────────────────────

#[test]
fn payload_is_dropped_for_events_without_one() {
    let evt = no_payload_event(EventType::LteConnected, 5);
    assert_eq!(payload_field(evt.event_type), PayloadField::NoPayload);
    let buf = encode_event(&evt, b"ignored");
    assert_eq!(buf.len(), 16);
}

#[test]
fn collision_event_without_report_sends_json_null() {
    // The daemon serialises the absent report as `null`.
    let evt = no_payload_event(EventType::CollisionPrerollTag, 1);
    let buf = encode_event(&evt, b"null");
    assert_eq!(&buf[12..16], &[4, 0, 0, 0]);
    assert_eq!(&buf[16..], b"null");
}

#[test]
fn every_known_type_reads_back() {
    let all = [
        EventType::VoiceActivityStart,
        EventType::CollisionPrerollTag,
        EventType::CollisionDetected,
        EventType::ObjectDetected,
        EventType::TranscriptReady,
        EventType::IntentClassified,
        EventType::WakeWordDetected,
        EventType::LteConnected,
        EventType::LteDisconnected,
        EventType::LlmResponseReady,
        EventType::SystemDriving,
        EventType::SuspendRequested,
        EventType::SuspendAck,
    ];
    for t in all {
        let buf = encode_event(&no_payload_event(t, 77), b"{}");
        let header = parse_header(&buf[..16]).unwrap();
        assert_eq!(decode_event(&header, None).event_type, t);
        assert_eq!(header.timestamp_us, 77);
    }
}

#[test]
fn unknown_and_unhandled_ids_read_as_system_driving() {
    for id in [0x02u32, 0x23, 0x31, 0x32, 0x99, 0] {
        assert_eq!(EventType::from_wire_id(id), EventType::SystemDriving);
    }
}

#[test]
fn header_needs_exactly_sixteen_bytes() {
    assert!(parse_header(&[0u8; 15]).is_none());
    assert!(parse_header(&[0u8; 17]).is_none());
    let h = parse_header(&[0x10, 0, 0, 0, 1, 0, 0, 0, 0, 0, 0, 0, 2, 0, 0, 0]).unwrap();
    assert_eq!(h, EventHeader { type_id: 0x10, timestamp_us: 1, payload_len: 2 });
}

#[test]
fn collision_report_kept_only_for_collision_types() {
    let h = EventHeader { type_id: 0x11, timestamp_us: 3, payload_len: 0 };
    let evt = decode_event(&h, Some(CollisionPayload { confidence_bits: 0, clip_id: 9 }));
    assert_eq!(evt.event_type, EventType::ObjectDetected);
    assert!(evt.collision.is_none());
    let h = EventHeader { type_id: 0x03, timestamp_us: 3, payload_len: 0 };
    let evt = decode_event(&h, Some(CollisionPayload { confidence_bits: 0, clip_id: 9 }));
    assert_eq!(evt.collision.unwrap().clip_id, 9);
}

// ── now_us monotonicity ───────────────────────────────────────────────────

#[test]
fn test_now_us_is_monotonic() {
    let t1 = media_daemon::event_bus::now_us();
    let start = std::time::Instant::now();
    while start.elapsed() < std::time::Duration::from_millis(1) {}
    let t2 = media_daemon::event_bus::now_us();
    assert!(t2 >= t1, "now_us must be non-decreasing");
}

#[test]
fn clock_reading_becomes_timestamp() {
    assert_eq!(timestamp_from_clock(None), 0);
    assert_eq!(timestamp_from_clock(Some(1_700_000_000_123_456)), 1_700_000_000_123_456);
    // Past 2^64 microseconds the value is truncated to 64 bits.
    assert_eq!(timestamp_from_clock(Some((1u128 << 64) + 5)), 5);
}

#[test]
fn suspend_ack_carries_the_given_timestamp() {
    let evt = DashcamEvent::suspend_ack_at(42_000_000);
    assert!(matches!(evt.event_type, EventType::SuspendAck));
    assert_eq!(evt.timestamp_us, 42_000_000);
    assert!(evt.collision.is_none() && evt.intent.is_none() && evt.wake.is_none() && evt.llm.is_none());
}

#[test]
fn suspend_ack_is_stamped_with_the_clock() {
    let before = media_daemon::event_bus::now_us();
    let evt = DashcamEvent::suspend_ack();
    let after = media_daemon::event_bus::now_us();
    assert!(before <= evt.timestamp_us && evt.timestamp_us <= after);
}
