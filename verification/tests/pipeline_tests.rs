use std::io::Write;

use slideshow::pipeline::frames_acceptable;
use slideshow::{
    CodecKind, ConvertError, Frame, OutGeometry, Phase, Pipeline, SrcGeometry, TimeBase,
};

fn make_zip(entries: &[(&str, &[u8])]) -> Vec<u8> {
    let cursor = std::io::Cursor::new(Vec::new());
    let mut writer = zip::ZipWriter::new(cursor);
    let options = zip::write::SimpleFileOptions::default();
    for (name, data) in entries {
        writer.start_file(*name, options).unwrap();
        writer.write_all(data).unwrap();
    }
    writer.finish().unwrap().into_inner()
}

fn frame(name: &str, delay: u32) -> Frame {
    Frame { filename: String::from(name), delay }
}

#[test]
fn empty_input_is_rejected_before_any_output_work() {
    let r = Pipeline::new(Vec::new());
    match r {
        Err(e) => assert_eq!(e, ConvertError::EmptyInput),
        Ok(_) => panic!("an empty frame list must be rejected"),
    }
}

#[test]
fn three_frames_run_at_ten_fps_with_monotonic_timestamps() {
    let archive = make_zip(&[
        ("a.jpg", b"first image bytes"),
        ("b.jpg", b"second image bytes"),
        ("c.jpg", b"third image bytes"),
    ]);
    let frames = vec![frame("a.jpg", 100), frame("b.jpg", 200), frame("c.jpg", 100)];
    assert!(frames_acceptable(&frames));
    let mut p = Pipeline::new(frames).unwrap();
    assert_eq!(p.codec_kind(), CodecKind::Mjpeg);
    assert_eq!(p.encode_time_base(), TimeBase { num: 1, den: 10 });
    assert_eq!(p.frame_rate(), TimeBase { num: 10, den: 1 });
    assert_eq!(p.frames_total(), 3);
    assert!(matches!(p.phase(), Phase::StreamingFirstFrame));

    // first frame: submitted, decoded synchronously, then configure
    let mut ms_clock = Vec::new();
    ms_clock.push(p.clock());
    let pkt = p.next_packet(&archive).unwrap();
    assert_eq!(pkt.data, b"first image bytes");
    assert_eq!(pkt.pts, 0);
    assert_eq!(pkt.duration, 1);
    assert!(pkt.key);
    let out = p.configure(SrcGeometry { format: 5, width: 320, height: 240 });
    assert_eq!(out, OutGeometry { width: 320, height: 240 });
    assert!(matches!(p.phase(), Phase::Streaming));
    assert!(!p.prepare_scale(SrcGeometry { format: 5, width: 320, height: 240 }));

    let mut enc_pts = vec![pkt.pts];
    while p.has_more() {
        ms_clock.push(p.clock());
        let pkt = p.next_packet(&archive).unwrap();
        enc_pts.push(pkt.pts);
    }
    // the millisecond domain before rescale: cumulative delays
    assert_eq!(ms_clock, vec![0, 100, 300]);
    // the encode domain after rescale into ticks of 100 ms
    assert_eq!(enc_pts, vec![0, 1, 3]);
    assert_eq!(p.clock(), 400);
    assert_eq!(p.frames_submitted(), 3);

    p.begin_drain_decoder();
    assert!(matches!(p.phase(), Phase::DrainDecoder));
    p.begin_drain_encoder();
    assert!(matches!(p.phase(), Phase::DrainEncoder));
    p.finish();
    assert!(matches!(p.phase(), Phase::Finalized));
}

#[test]
fn packet_data_comes_from_the_named_entry() {
    let archive = make_zip(&[("x.png", &[1, 2, 3, 4]), ("y.png", &[9, 8, 7])]);
    let frames = vec![frame("x.png", 40), frame("y.png", 40)];
    let mut p = Pipeline::new(frames).unwrap();
    assert_eq!(p.codec_kind(), CodecKind::Png);
    let first = p.next_packet(&archive).unwrap();
    assert_eq!(first.data, vec![1, 2, 3, 4]);
    p.configure(SrcGeometry { format: 2, width: 16, height: 16 });
    let second = p.next_packet(&archive).unwrap();
    assert_eq!(second.data, vec![9, 8, 7]);
}

#[test]
fn missing_entry_fails_without_advancing() {
    let archive = make_zip(&[("present.jpg", b"data")]);
    let frames = vec![frame("absent.jpg", 50)];
    let mut p = Pipeline::new(frames).unwrap();
    let r = p.next_packet(&archive);
    match r {
        Err(e) => assert_eq!(e, ConvertError::EntryNotFound),
        Ok(_) => panic!("a missing entry must fail"),
    }
    assert_eq!(p.frames_submitted(), 0);
    assert_eq!(p.clock(), 0);
}

#[test]
fn damaged_archive_is_an_io_error() {
    let garbage = vec![0u8; 64];
    let frames = vec![frame("a.jpg", 50)];
    let mut p = Pipeline::new(frames).unwrap();
    match p.next_packet(&garbage) {
        Err(e) => assert_eq!(e, ConvertError::IoError),
        Ok(_) => panic!("a damaged archive must fail"),
    }
}

#[test]
fn geometry_change_rebuilds_the_plan_once() {
    let archive = make_zip(&[("a.jpg", b"one"), ("b.jpg", b"two")]);
    let frames = vec![frame("a.jpg", 100), frame("b.jpg", 100)];
    let mut p = Pipeline::new(frames).unwrap();
    let _ = p.next_packet(&archive).unwrap();
    // the first frame has odd dimensions; the run's output is padded even
    let out = p.configure(SrcGeometry { format: 5, width: 101, height: 99 });
    assert_eq!(out, OutGeometry { width: 102, height: 100 });
    let _ = p.next_packet(&archive).unwrap();
    // the second frame's geometry differs: exactly one rebuild, into the
    // unchanged output geometry fixed by the first frame
    assert!(p.prepare_scale(SrcGeometry { format: 5, width: 50, height: 60 }));
    assert_eq!(p.output_geometry(), Some(OutGeometry { width: 102, height: 100 }));
    assert!(!p.prepare_scale(SrcGeometry { format: 5, width: 50, height: 60 }));
}

#[test]
fn output_rescale_into_container_ticks() {
    let frames = vec![frame("a.jpg", 100)];
    let p = Pipeline::new(frames).unwrap();
    // encode time base 1/10: one tick is 9000 container ticks
    assert_eq!(p.to_output(0), Some(0));
    assert_eq!(p.to_output(1), Some(9000));
    assert_eq!(p.to_output(3), Some(27000));
    // a timestamp too large for the 64-bit container domain is refused
    assert_eq!(p.to_output(i64::MAX), None);
}

#[test]
fn total_duration_has_a_hard_ceiling() {
    // 23_000 frames of the largest delay stay under the ceiling,
    // 24_000 exceed it
    let mut frames = Vec::new();
    for _ in 0..23_000 {
        frames.push(frame("a.jpg", u32::MAX));
    }
    assert!(frames_acceptable(&frames));
    for _ in 0..1_000 {
        frames.push(frame("a.jpg", u32::MAX));
    }
    assert!(!frames_acceptable(&frames));
}

#[test]
fn delays_below_one_millisecond_are_not_acceptable() {
    let frames = vec![frame("a.jpg", 0)];
    assert!(!frames_acceptable(&frames));
    let frames = vec![frame("a.jpg", 1)];
    assert!(frames_acceptable(&frames));
}
