use media_daemon::encoder_common::EncodedSegment;
use media_daemon::loop_writer::{
    clip_dir_name, flush_and_checkpoint, segment_file_name, tag_preroll, Config, LoopWriter,
    WriterSignals,
};

fn fake_segment(size: usize, start_us: u64, end_us: u64) -> EncodedSegment {
    EncodedSegment {
        data: vec![0xAAu8; size],
        start_ts_us: start_us,
        end_ts_us: end_us,
        frame_count: 1800,
    }
}

fn test_config() -> Config {
    Config {
        root_dir: b"/tmp/loop".to_vec(),
        segment_secs: 60,
        max_storage_gb: 1, // 1 GB limit — generous for unit tests
        pre_roll_secs: 30,
    }
}

/// Records `seg` the way the daemon does: named after the writer's counter.
fn write(writer: &mut LoopWriter, signals: &mut WriterSignals, seg: EncodedSegment) -> media_daemon::loop_writer::SegmentActions {
    let name = String::from_utf8(writer.next_segment_file_name(seg.start_ts_us)).unwrap();
    let path = format!("{}/{}", String::from_utf8(writer.cfg.root_dir.clone()).unwrap(), name);
    writer.write_segment(path.into_bytes(), &seg, signals)
}

// ── write_segment — bookkeeping ──────────────────────────────────────────

#[test]
fn test_segment_index_increments_monotonically() {
    let mut writer = LoopWriter::new(test_config());
    let mut signals = WriterSignals::new();

    for i in 0..5u64 {
        write(&mut writer, &mut signals, fake_segment(64, i * 60_000_000, (i + 1) * 60_000_000));
    }

    let mut names: Vec<String> = writer
        .written
        .iter()
        .map(|m| String::from_utf8(m.path.clone()).unwrap().rsplit('/').next().unwrap().to_string())
        .collect();
    names.sort();

    for (i, name) in names.iter().enumerate() {
        assert!(
            name.starts_with(&format!("seg_{:08}", i)),
            "segment {i} must have monotonic filename prefix, got {name}"
        );
    }
}

#[test]
fn test_total_bytes_tracks_written_data() {
    let mut writer = LoopWriter::new(test_config());
    let mut signals = WriterSignals::new();

    write(&mut writer, &mut signals, fake_segment(1000, 0, 1));
    assert_eq!(writer.total_bytes, 1000);

    write(&mut writer, &mut signals, fake_segment(2000, 1, 2));
    assert_eq!(writer.total_bytes, 3000);
}

// ── evict_if_needed ───────────────────────────────────────────────────────

#[test]
fn test_eviction_removes_oldest_segment_when_over_limit() {
    let mut cfg = test_config();
    cfg.max_storage_gb = 0; // 0 GB → max_bytes = 0 → evict immediately
    let mut writer = LoopWriter::new(cfg);
    let mut signals = WriterSignals::new();

    write(&mut writer, &mut signals, fake_segment(100, 0, 1));
    // After write+evict, the segment should be gone
    assert_eq!(writer.written.len(), 0, "segment must be evicted");
    assert_eq!(writer.total_bytes, 0);
}

#[test]
fn test_eviction_keeps_newest_when_over_limit() {
    let mut cfg = test_config();
    cfg.max_storage_gb = 0;
    let mut writer = LoopWriter::new(cfg);
    let mut signals = WriterSignals::new();
    // Force max_bytes to 250 — fits 2 × 100 byte segments, evicts on 3rd
    writer.max_bytes = 250;

    write(&mut writer, &mut signals, fake_segment(100, 0, 60_000_000)); // seg 0
    write(&mut writer, &mut signals, fake_segment(100, 1, 61_000_000)); // seg 1
    write(&mut writer, &mut signals, fake_segment(100, 2, 62_000_000)); // seg 2 → evicts seg 0

    assert_eq!(writer.written.len(), 2, "only 2 segments should remain");
    // Oldest remaining must be seg 1 (start_ts = 1)
    assert_eq!(writer.written.front().unwrap().start_ts, 1);
}

#[test]
fn test_eviction_does_not_underflow_total_bytes() {
    let mut writer = LoopWriter::new(test_config());
    let mut signals = WriterSignals::new();
    writer.max_bytes = 0; // force evict everything

    for i in 0..10u64 {
        write(&mut writer, &mut signals, fake_segment(512, i, i + 1));
    }
    assert_eq!(writer.total_bytes, 0, "total_bytes must not underflow");
}

#[test]
fn evicted_segments_are_reported_oldest_first() {
    let mut writer = LoopWriter::new(test_config());
    let mut signals = WriterSignals::new();
    writer.max_bytes = 150;

    let a = write(&mut writer, &mut signals, fake_segment(100, 0, 1));
    assert!(a.evicted.is_empty());
    let b = write(&mut writer, &mut signals, fake_segment(100, 1, 2));
    assert_eq!(b.evicted.len(), 1);
    assert_eq!(b.evicted[0].start_ts, 0);
    assert!(b.evicted[0].path.ends_with(b"seg_00000000_0.h264"));
    assert_eq!(writer.total_bytes, 100);
}

#[test]
fn evict_if_needed_stops_at_the_limit() {
    let mut writer = LoopWriter::new(test_config());
    let mut signals = WriterSignals::new();
    for i in 0..4u64 {
        write(&mut writer, &mut signals, fake_segment(100, i, i + 1));
    }
    writer.max_bytes = 200;
    let evicted = writer.evict_if_needed();
    assert_eq!(evicted.len(), 2);
    assert_eq!(evicted[0].start_ts, 0);
    assert_eq!(evicted[1].start_ts, 1);
    assert_eq!(writer.total_bytes, 200);
    assert_eq!(writer.written.len(), 2);
}

// ── tag_preroll / check_collision_tag ────────────────────────────────────

#[test]
fn test_tag_preroll_is_zero_initially() {
    let signals = WriterSignals::new();
    assert_eq!(signals.tagged_clip_id, 0);
}

#[test]
fn test_tag_preroll_stores_clip_id() {
    let mut signals = WriterSignals::new();
    tag_preroll(&mut signals, 99);
    assert_eq!(signals.tagged_clip_id, 99);
}

#[test]
fn test_collision_tag_copies_preroll_segments() {
    let mut writer = LoopWriter::new(test_config());
    let mut signals = WriterSignals::new();

    // Write 3 segments spanning 0..180 s
    for i in 0..3u64 {
        write(&mut writer, &mut signals, fake_segment(512, i * 60_000_000, (i + 1) * 60_000_000));
    }

    // Tag clip 5; pre-roll of 30 s before 180 s
    signals.tagged_clip_id = 5;
    let copy = writer.check_collision_tag(&mut signals, 180_000_000).unwrap();

    assert_eq!(String::from_utf8(copy.clip_dir.clone()).unwrap(), "clip_00000005");
    assert!(!copy.segments.is_empty(), "at least one preroll segment must be preserved");
    // Only the segment ending at 180 s reaches into the window starting at 150 s.
    assert_eq!(copy.segments.len(), 1);
    assert!(copy.segments[0].ends_with(b"seg_00000002_120000000.h264"));
}

#[test]
fn test_collision_tag_clears_after_processing() {
    let mut writer = LoopWriter::new(test_config());
    let mut signals = WriterSignals::new();
    write(&mut writer, &mut signals, fake_segment(64, 0, 60_000_000));

    signals.tagged_clip_id = 7;
    writer.check_collision_tag(&mut signals, 60_000_000);

    // The tag must be zero again
    assert_eq!(signals.tagged_clip_id, 0, "clip_id must be cleared after processing");
}

#[test]
fn test_no_evidence_copy_when_tag_is_zero() {
    let mut writer = LoopWriter::new(test_config());
    let mut signals = WriterSignals::new();
    write(&mut writer, &mut signals, fake_segment(64, 0, 60_000_000));

    signals.tagged_clip_id = 0;
    let copy = writer.check_collision_tag(&mut signals, 60_000_000);
    assert!(copy.is_none(), "no evidence copy without a collision tag");
}

#[test]
fn tagged_collision_is_handled_by_the_next_write() {
    let mut writer = LoopWriter::new(test_config());
    let mut signals = WriterSignals::new();
    write(&mut writer, &mut signals, fake_segment(64, 0, 60_000_000));
    tag_preroll(&mut signals, 3);
    let actions = write(&mut writer, &mut signals, fake_segment(64, 60_000_000, 120_000_000));
    let copy = actions.preserve.unwrap();
    assert_eq!(copy.clip_id, 3);
    // Window starts 30 s before the new segment's start (60 s): both segments end after 30 s.
    assert_eq!(copy.segments.len(), 2);
    assert_eq!(signals.tagged_clip_id, 0);
}

#[test]
fn pre_roll_window_clamps_at_zero() {
    let mut writer = LoopWriter::new(test_config());
    let mut signals = WriterSignals::new();
    write(&mut writer, &mut signals, fake_segment(64, 0, 0));
    tag_preroll(&mut signals, 1);
    // current_ts (10 s) is less than the pre-roll (30 s): the window starts at 0.
    let copy = writer.check_collision_tag(&mut signals, 10_000_000).unwrap();
    assert_eq!(copy.segments.len(), 1);
}

// ── flush_and_checkpoint ──────────────────────────────────────────────────

#[test]
fn test_flush_requested_atomic() {
    let mut signals = WriterSignals::new();
    flush_and_checkpoint(&mut signals);
    assert!(signals.flush_requested);
    assert!(signals.take_flush_request());
    assert!(!signals.flush_requested);
}

// ── file names ────────────────────────────────────────────────────────────

#[test]
fn segment_file_name_format() {
    assert_eq!(String::from_utf8(segment_file_name(0, 0)).unwrap(), "seg_00000000_0.h264");
    assert_eq!(String::from_utf8(segment_file_name(42, 1_000_000)).unwrap(), "seg_00000042_1000000.h264");
    assert_eq!(
        String::from_utf8(segment_file_name(123_456_789, u64::MAX)).unwrap(),
        format!("seg_123456789_{}.h264", u64::MAX)
    );
}

#[test]
fn clip_dir_name_format() {
    assert_eq!(String::from_utf8(clip_dir_name(5)).unwrap(), "clip_00000005");
    assert_eq!(String::from_utf8(clip_dir_name(u32::MAX)).unwrap(), "clip_4294967295");
}

#[test]
fn max_bytes_is_gigabytes() {
    let writer = LoopWriter::new(test_config());
    assert_eq!(writer.max_bytes, 1024 * 1024 * 1024);
    let mut cfg = test_config();
    cfg.max_storage_gb = 28;
    assert_eq!(LoopWriter::new(cfg).max_bytes, 28 * 1024 * 1024 * 1024);
}

// ── Eviction step by step ─────────────────────────────────────────────────

fn recorded(writer: &mut LoopWriter, size: usize, ts: u64) {
    let name = String::from_utf8(writer.next_segment_file_name(ts)).unwrap();
    writer.record_segment(format!("/tmp/loop/{name}").into_bytes(), &fake_segment(size, ts, ts + 1));
}

#[test]
fn removed_eviction_settles_its_size() {
    let mut writer = LoopWriter::new(test_config());
    writer.max_bytes = 150;
    recorded(&mut writer, 100, 0);
    assert_eq!(writer.next_eviction(), None);
    recorded(&mut writer, 100, 1);
    assert_eq!(writer.total_bytes, 200);
    assert_eq!(writer.segment_idx, 2);
    assert_eq!(writer.next_eviction(), Some(b"/tmp/loop/seg_00000000_0.h264".to_vec()));
    let oldest = writer.commit_eviction(true);
    assert_eq!(oldest.start_ts, 0);
    assert_eq!(writer.total_bytes, 100);
    assert_eq!(writer.written.len(), 1);
    assert_eq!(writer.next_eviction(), None);
}

#[test]
fn failed_removal_keeps_size_counted() {
    let mut writer = LoopWriter::new(test_config());
    writer.max_bytes = 150;
    recorded(&mut writer, 100, 0);
    recorded(&mut writer, 100, 1);
    // The file of the oldest segment could not be removed: it leaves the
    // record, but its 100 bytes stay counted.
    writer.commit_eviction(false);
    assert_eq!(writer.written.len(), 1);
    assert_eq!(writer.total_bytes, 200);
    // Still over the limit, so the next oldest is up for eviction.
    assert_eq!(writer.next_eviction(), Some(b"/tmp/loop/seg_00000001_1.h264".to_vec()));
    writer.commit_eviction(true);
    assert_eq!(writer.total_bytes, 100);
    assert_eq!(writer.next_eviction(), None);
}
