use media_daemon::capture::RawFrame;

fn frame(ts: u64) -> RawFrame {
    RawFrame { width: 1920, height: 1080, stride: 1920, size: 0, timestamp_us: ts, shm_slot: 0 }
}

#[test]
fn mpp_encoder_emits_a_segment_every_minute() {
    let mut enc = media_daemon::encoder::MppEncoder::new(1920, 1080, 30, 8_000);
    for i in 0..1799u64 {
        assert!(enc.encode_frame(&frame(i * 33_333), &[1, 2, 3]).is_none());
    }
    let seg = enc.encode_frame(&frame(1799 * 33_333), &[]).unwrap();
    assert_eq!(seg.frame_count, 1800);
    assert_eq!(seg.start_ts_us, 0);
    assert_eq!(seg.end_ts_us, 1799 * 33_333);
    assert!(seg.data.is_empty(), "pixel data is not added to the segment");
    // The next frame starts a new segment.
    assert!(enc.encode_frame(&frame(60_000_000), &[]).is_none());
}

#[test]
fn mpp_backend_encoder_segments_like_the_default() {
    let mut enc = media_daemon::encoder_mpp::MppEncoder::new(2, 8_000);
    let mut seg = None;
    for i in 0..120u64 {
        seg = enc.encode_frame(&frame(1000 + i), &[]);
        if i < 119 {
            assert!(seg.is_none());
        }
    }
    let seg = seg.unwrap();
    assert_eq!(seg.frame_count, 120);
    assert_eq!(seg.start_ts_us, 1000);
    assert_eq!(seg.end_ts_us, 1119);
}

#[test]
fn capture_timestamp_combines_seconds_and_microseconds() {
    assert_eq!(media_daemon::capture::timestamp_us(12, 345_678), 12_345_678);
    assert_eq!(media_daemon::capture::timestamp_us(0, 0), 0);
}

#[test]
fn published_frame_lands_in_the_ring_slot_it_names() {
    let mut ring = media_daemon::shm::ShmRingProducer::create();
    let buf = [9u8, 8, 7, 6];
    let raw = media_daemon::capture::publish_frame(&mut ring, &buf, 640, 480, 640, 5_000).unwrap();
    assert_eq!(raw.shm_slot, 0);
    assert_eq!(raw.size, 4);
    let slot = ring.slot_ptr(raw.shm_slot);
    assert_eq!((slot.width, slot.height, slot.stride, slot.size), (640, 480, 640, 4));
    assert_eq!(slot.timestamp_us, 5_000);
    assert_eq!(&slot.data[..4], &buf);
    assert_eq!(ring.header_for_bench().write_idx, 1);
}

#[test]
fn full_ring_drops_the_frame() {
    let mut ring = media_daemon::shm::ShmRingProducer::create();
    for i in 0..media_daemon::shm::N_SLOTS {
        assert!(media_daemon::capture::publish_frame(&mut ring, &[1], 1, 1, 1, i as u64).is_some());
    }
    assert!(media_daemon::capture::publish_frame(&mut ring, &[2], 1, 1, 1, 99).is_none());
    assert_eq!(ring.header_for_bench().write_idx, media_daemon::shm::N_SLOTS as u32);
}
