use powerdna::muxer::{Frame, MuxEvent, MuxPolicy, Muxer};
use powerdna::DaqError;

fn frame(readings: Vec<f64>, timestamps: Vec<u32>) -> Frame<f64> {
    Frame { readings, timestamps }
}

#[test]
fn single_board_passes_frames_through() {
    let mut muxer = Muxer::new(String::from("engine"), vec![2], false).unwrap();
    assert_eq!(muxer.policy(), MuxPolicy::PassThrough);
    let readings = vec![0.5, 1.5, 2.5, 3.5, 4.5, 5.5, 6.5, 7.5];
    let timestamps = vec![10, 20, 30, 40];
    let record = muxer
        .step(MuxEvent::Cycle(vec![frame(readings.clone(), timestamps.clone())]))
        .unwrap();
    assert_eq!(record.topic, "engine");
    assert_eq!(record.readings.len(), 8);
    assert_eq!(record.timestamps.len(), 4);
    assert_eq!(record.readings, readings);
    assert_eq!(record.timestamps, timestamps);
    assert!(muxer.is_running());
}

#[test]
fn two_boards_are_interleaved_scan_by_scan() {
    let mut muxer = Muxer::new(String::from("rig"), vec![2, 1], true).unwrap();
    assert_eq!(muxer.policy(), MuxPolicy::Merge);
    assert_eq!(muxer.inputs(), 2);
    // board 0: two channels and two timestamp slots per scan, three scans
    let first = frame(
        vec![1.0, 2.0, -1.0, -1.0, 3.0, 4.0, -1.0, -1.0, 5.0, 6.0, -1.0, -1.0],
        vec![100, 200, 300],
    );
    // board 1: one channel and two timestamp slots per scan, three scans
    let second = frame(vec![7.0, -2.0, -2.0, 8.0, -2.0, -2.0, 9.0, -2.0, -2.0], vec![101, 201, 301]);
    let record = muxer.step(MuxEvent::Cycle(vec![first, second])).unwrap();
    assert_eq!(record.topic, "rig");
    assert_eq!(record.readings, vec![1.0, 2.0, 7.0, 3.0, 4.0, 8.0, 5.0, 6.0, 9.0]);
    assert_eq!(record.timestamps, vec![100, 200, 300]);
}

#[test]
fn differing_scan_counts_end_the_muxer() {
    let mut muxer = Muxer::new(String::from("rig"), vec![1, 1], false).unwrap();
    let good = muxer.step(MuxEvent::Cycle(vec![frame(vec![1.0, 2.0], vec![1, 2]), frame(vec![3.0, 4.0], vec![1, 2])]));
    assert_eq!(good.unwrap().readings, vec![1.0, 3.0, 2.0, 4.0]);
    let bad = muxer.step(MuxEvent::Cycle(vec![frame(vec![1.0, 2.0], vec![1, 2]), frame(vec![3.0], vec![1])]));
    assert!(bad.is_none());
    assert!(!muxer.is_running());
    let later = muxer.step(MuxEvent::Cycle(vec![frame(vec![1.0, 2.0], vec![1, 2]), frame(vec![3.0, 4.0], vec![1, 2])]));
    assert!(later.is_none());
    assert!(!muxer.is_running());
}

#[test]
fn a_stream_without_boards_is_refused() {
    assert!(matches!(Muxer::new(String::from("rig"), vec![], true), Err(DaqError::ChannelConfigError)));
    assert!(matches!(Muxer::new(String::from("rig"), vec![0], false), Err(DaqError::ChannelConfigError)));
    assert!(Muxer::new(String::from("rig"), vec![0], true).is_ok());
}

#[test]
fn pass_through_keeps_arrival_order() {
    let mut muxer = Muxer::new(String::from("engine"), vec![3], true).unwrap();
    let stream = vec![
        frame(vec![1.0, 2.0, 3.0], vec![1]),
        frame(vec![], vec![]),
        frame(vec![4.0], vec![2, 3, 4]),
        frame(vec![f64::MAX, f64::MIN_POSITIVE, -0.0, f64::INFINITY], vec![u32::MAX]),
    ];
    let mut out = Vec::new();
    for f in &stream {
        let copy = frame(f.readings.clone(), f.timestamps.clone());
        out.push(muxer.step(MuxEvent::Cycle(vec![copy])).unwrap());
    }
    assert_eq!(out.len(), stream.len());
    for (record, f) in out.iter().zip(stream.iter()) {
        assert_eq!(record.topic, "engine");
        let got: Vec<u64> = record.readings.iter().map(|r| r.to_bits()).collect();
        let sent: Vec<u64> = f.readings.iter().map(|r| r.to_bits()).collect();
        assert_eq!(got, sent);
        assert_eq!(record.timestamps, f.timestamps);
    }
}

#[test]
fn pass_through_does_not_look_at_the_frame() {
    let muxer = Muxer::new(String::from("engine"), vec![2], true).unwrap();
    // readings and timestamps that do not fit each other are still forwarded
    let record = muxer.pass_through(frame(vec![1.0, 2.0, 3.0], vec![9, 8, 7, 6, 5]));
    assert_eq!(record.readings, vec![1.0, 2.0, 3.0]);
    assert_eq!(record.timestamps, vec![9, 8, 7, 6, 5]);
}

#[test]
fn a_pass_through_cycle_has_exactly_one_frame() {
    let mut muxer = Muxer::new(String::from("engine"), vec![2], false).unwrap();
    assert!(muxer.step(MuxEvent::<f64>::Cycle(vec![])).is_none());
    assert!(!muxer.is_running());
    let mut muxer = Muxer::new(String::from("engine"), vec![2], false).unwrap();
    let two = vec![frame(vec![1.0, 2.0], vec![1]), frame(vec![1.0, 2.0], vec![1])];
    assert!(muxer.step(MuxEvent::Cycle(two)).is_none());
    assert!(!muxer.is_running());
}

#[test]
fn three_boards_merge_in_declaration_order() {
    let muxer = Muxer::new(String::from("rig"), vec![1, 3, 2], false).unwrap();
    let frames = vec![
        frame(vec![10.0, 11.0], vec![1, 2]),
        frame(vec![20.0, 21.0, 22.0, 23.0, 24.0, 25.0], vec![3, 4]),
        frame(vec![30.0, 31.0, 32.0, 33.0], vec![5, 6]),
    ];
    let record = muxer.merge(frames).unwrap();
    assert_eq!(
        record.readings,
        vec![10.0, 20.0, 21.0, 22.0, 30.0, 31.0, 11.0, 23.0, 24.0, 25.0, 32.0, 33.0]
    );
    // the first board's timestamps are the record's
    assert_eq!(record.timestamps, vec![1, 2]);
    assert_eq!(record.readings.len() / 6, 2);
}

#[test]
fn a_trailing_partial_scan_is_not_merged() {
    let muxer = Muxer::new(String::from("rig"), vec![2, 1], false).unwrap();
    // board 0 holds one whole scan and half of another
    let frames = vec![frame(vec![1.0, 2.0, 3.0], vec![7]), frame(vec![9.0], vec![7])];
    let record = muxer.merge(frames).unwrap();
    assert_eq!(record.readings, vec![1.0, 2.0, 9.0]);
    assert_eq!(record.timestamps, vec![7]);
}

#[test]
fn empty_frames_merge_into_an_empty_record() {
    let muxer = Muxer::new(String::from("rig"), vec![2, 1], true).unwrap();
    let record = muxer.merge(vec![frame(vec![], vec![]), frame(vec![], vec![])]).unwrap();
    assert!(record.readings.is_empty());
    assert!(record.timestamps.is_empty());
}

#[test]
fn frames_that_do_not_align_are_not_merged() {
    let muxer = Muxer::new(String::from("rig"), vec![1, 1], false).unwrap();
    // differing scan counts
    assert!(muxer.merge(vec![frame(vec![1.0, 2.0], vec![1, 2]), frame(vec![3.0], vec![1, 2])]).is_none());
    // timestamps that do not match the scans
    assert!(muxer.merge(vec![frame(vec![1.0, 2.0], vec![1, 2]), frame(vec![3.0, 4.0], vec![1])]).is_none());
    assert!(muxer.merge(vec![frame(vec![1.0, 2.0], vec![1]), frame(vec![3.0, 4.0], vec![1, 2])]).is_none());
    // a missing or an extra frame
    assert!(muxer.merge(vec![frame(vec![1.0, 2.0], vec![1, 2])]).is_none());
    assert!(muxer.merge(Vec::<Frame<f64>>::new()).is_none());
    let three = vec![
        frame(vec![1.0], vec![1]),
        frame(vec![2.0], vec![1]),
        frame(vec![3.0], vec![1]),
    ];
    assert!(muxer.merge(three).is_none());
    // and frames that align are
    assert!(muxer.merge(vec![frame(vec![1.0, 2.0], vec![1, 2]), frame(vec![3.0, 4.0], vec![8, 9])]).is_some());
}

#[test]
fn a_closed_queue_ends_the_muxer() {
    for closed in [0, 1] {
        let mut muxer = Muxer::new(String::from("rig"), vec![1, 1], false).unwrap();
        let event = if closed == 0 { MuxEvent::<f64>::InputClosed } else { MuxEvent::<f64>::SinkClosed };
        assert!(muxer.step(event).is_none());
        assert!(!muxer.is_running());
        let frames = vec![frame(vec![1.0], vec![1]), frame(vec![2.0], vec![1])];
        assert!(muxer.step(MuxEvent::Cycle(frames)).is_none());
    }
}

#[test]
fn readings_of_any_copy_type_can_be_merged() {
    let muxer = Muxer::new(String::from("rig"), vec![1, 1], true).unwrap();
    let frames = vec![
        Frame { readings: vec![1u16, 0, 0, 2, 0, 0], timestamps: vec![1, 2] },
        Frame { readings: vec![3u16, 0, 0, 4, 0, 0], timestamps: vec![1, 2] },
    ];
    assert_eq!(muxer.merge(frames).unwrap().readings, vec![1, 3, 2, 4]);
}
