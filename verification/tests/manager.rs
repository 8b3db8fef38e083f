use powerdna::boards::ai201::{
    ChannelCodes, EventMasks, SampleEvent, SampleState,
};
use powerdna::boards::dio405::OutputAction;
use powerdna::config::{BoardConfig, ChannelConfig, OutputConfig, StreamConfig};
use powerdna::lifecycle::{arm_plan, Action};
use powerdna::manager::StreamState;
use powerdna::muxer::{Frame, MuxEvent, MuxPolicy, Record};
use powerdna::stream::Sampler;
use powerdna::{DaqError, SignalManager};

const CODES: ChannelCodes =
    ChannelCodes { gain_one: 0, gain_two: 1, gain_five: 2, gain_ten: 3, timestamp: 0x8000_0000 };

fn input(device: u8, channels: usize) -> BoardConfig {
    BoardConfig {
        device,
        channels: (0..channels).map(|id| ChannelConfig { id: id as u8, gain: 1 }).collect(),
    }
}

fn manager(boards: Vec<BoardConfig>, outputs: Vec<OutputConfig>, frame_size: u32) -> SignalManager {
    let config = StreamConfig {
        ip: String::from("192.168.100.2"),
        freq: 1000,
        frame_size,
        boards,
        outputs,
    };
    SignalManager::new(
        String::from("rig"),
        config.freq,
        config.frame_size,
        config.boards,
        config.outputs,
        CODES,
    )
}

fn arm(manager: &mut SignalManager) {
    for action in manager.start().unwrap() {
        assert_eq!(manager.state(), StreamState::Arming);
        manager.completed(action);
    }
    assert_eq!(manager.state(), StreamState::Armed);
}

#[test]
fn a_new_stream_is_unarmed() {
    let manager = manager(vec![input(0, 2)], vec![], 4);
    assert_eq!(manager.state(), StreamState::Unarmed);
    assert_eq!(manager.name(), "rig");
    assert!(manager.sampler().is_none());
}

#[test]
fn start_arms_and_stop_releases_everything() {
    let mut manager = manager(vec![input(0, 2), input(1, 3)], vec![OutputConfig { device: 4 }], 4);
    let steps = manager.start().unwrap();
    assert_eq!(steps, arm_plan(2, 1));
    assert_eq!(manager.state(), StreamState::Arming);
    for action in steps {
        manager.completed(action);
    }
    assert_eq!(manager.state(), StreamState::Armed);
    assert!(manager.sampler().unwrap().is_armed());

    let release = manager.stop().unwrap();
    assert_eq!(manager.state(), StreamState::Draining);
    let created = arm_plan(2, 1).iter().filter(|a| matches!(a, Action::CreateAcb { .. })).count();
    let destroyed = release.iter().filter(|a| matches!(a, Action::DestroyAcb { .. })).count();
    assert_eq!(created, 2);
    assert_eq!(destroyed, 2);
    assert_eq!(release.first(), Some(&Action::DisableCapture));
    assert_eq!(release.last(), Some(&Action::JoinMuxer));
    for action in release {
        assert_eq!(manager.state(), StreamState::Draining);
        manager.completed(action);
    }
    assert_eq!(manager.state(), StreamState::Unarmed);
    assert!(manager.sampler().is_none());
    // and it can be started again
    arm(&mut manager);
}

#[test]
fn operations_are_refused_in_the_wrong_state() {
    let mut manager = manager(vec![input(0, 2)], vec![], 4);
    assert_eq!(manager.stop(), Err(DaqError::StreamStateError));
    assert_eq!(manager.trigger(), Err(DaqError::StreamStateError));
    assert_eq!(manager.abort(), Err(DaqError::StreamStateError));
    assert_eq!(manager.state(), StreamState::Unarmed);

    let steps = manager.start().unwrap();
    assert_eq!(manager.start(), Err(DaqError::StreamStateError));
    assert_eq!(manager.stop(), Err(DaqError::StreamStateError));
    assert_eq!(manager.trigger(), Err(DaqError::StreamStateError));
    assert_eq!(manager.state(), StreamState::Arming);

    for action in steps {
        manager.completed(action);
    }
    assert_eq!(manager.start(), Err(DaqError::StreamStateError));
    assert_eq!(manager.abort(), Err(DaqError::StreamStateError));
    assert_eq!(manager.state(), StreamState::Armed);

    manager.stop().unwrap();
    assert_eq!(manager.start(), Err(DaqError::StreamStateError));
    assert_eq!(manager.stop(), Err(DaqError::StreamStateError));
    assert_eq!(manager.trigger(), Err(DaqError::StreamStateError));
    assert_eq!(manager.abort(), Err(DaqError::StreamStateError));
    assert_eq!(manager.state(), StreamState::Draining);
}

#[test]
fn trigger_without_outputs_is_a_no_op_that_succeeds() {
    let mut manager = manager(vec![input(0, 2)], vec![], 4);
    arm(&mut manager);
    assert_eq!(manager.trigger(), Ok(vec![]));
    assert_eq!(manager.state(), StreamState::Armed);
}

#[test]
fn trigger_with_one_output_is_exactly_one_pulse() {
    let mut manager = manager(vec![input(0, 2)], vec![OutputConfig { device: 4 }], 4);
    arm(&mut manager);
    assert_eq!(
        manager.trigger(),
        Ok(vec![
            OutputAction::Write { device: 4, value: 0xffff_ffff },
            OutputAction::Settle { millis: 100 },
            OutputAction::Write { device: 4, value: 0 },
        ])
    );
}

#[test]
fn trigger_pulses_every_output_in_turn() {
    let outputs = vec![OutputConfig { device: 4 }, OutputConfig { device: 9 }];
    let mut manager = manager(vec![input(0, 2)], outputs, 4);
    arm(&mut manager);
    assert_eq!(
        manager.trigger(),
        Ok(vec![
            OutputAction::Write { device: 4, value: 0xffff_ffff },
            OutputAction::Settle { millis: 100 },
            OutputAction::Write { device: 4, value: 0 },
            OutputAction::Write { device: 9, value: 0xffff_ffff },
            OutputAction::Settle { millis: 100 },
            OutputAction::Write { device: 9, value: 0 },
        ])
    );
}

#[test]
fn a_failed_arming_is_drained_and_leaves_the_stream_unarmed() {
    let mut manager = manager(vec![input(0, 2), input(1, 2)], vec![], 4);
    let steps = manager.start().unwrap();
    // board 0 comes up, board 1 gets its buffer, then arming it fails
    for action in steps.into_iter().take(8) {
        manager.completed(action);
    }
    assert_eq!(manager.state(), StreamState::Arming);
    let release = manager.abort().unwrap();
    assert_eq!(
        release,
        vec![
            Action::RaiseStop,
            Action::JoinBoard { board: 0 },
            Action::DestroyAcb { board: 0 },
            Action::DestroyAcb { board: 1 },
        ]
    );
    assert_eq!(manager.state(), StreamState::Draining);
    for action in release {
        manager.completed(action);
    }
    assert_eq!(manager.state(), StreamState::Unarmed);
}

#[test]
fn aborting_before_anything_was_acquired_unarms_at_once() {
    let mut manager = manager(vec![input(0, 2)], vec![], 4);
    let steps = manager.start().unwrap();
    manager.completed(steps[0]);
    assert_eq!(manager.abort(), Ok(vec![]));
    assert_eq!(manager.state(), StreamState::Unarmed);
}

#[test]
fn a_stream_that_cannot_be_planned_stays_unarmed() {
    let mut no_boards = manager(vec![], vec![OutputConfig { device: 4 }], 4);
    assert_eq!(no_boards.start(), Err(DaqError::ChannelConfigError));
    assert_eq!(no_boards.state(), StreamState::Unarmed);

    let mut bad_gain = input(0, 2);
    bad_gain.channels[1].gain = 3;
    let mut manager = manager(vec![input(1, 1), bad_gain], vec![], 4);
    assert_eq!(manager.start(), Err(DaqError::GainConfigError));
    assert_eq!(manager.state(), StreamState::Unarmed);

    let mut too_large = self::manager(vec![input(0, 2)], vec![], u32::MAX);
    assert_eq!(too_large.start(), Err(DaqError::BufferError));
    assert_eq!(too_large.state(), StreamState::Unarmed);
}

#[test]
fn the_first_board_that_fails_decides_the_error() {
    let mut bad_gain = input(1, 1);
    bad_gain.channels[0].gain = 7;
    let sampler = Sampler::new(1000, u32::MAX, &vec![input(0, 1), bad_gain], &vec![], String::from("rig"), &CODES);
    assert!(matches!(sampler, Err(DaqError::BufferError)));
    let mut bad_gain = input(0, 1);
    bad_gain.channels[0].gain = 7;
    let sampler = Sampler::new(1000, u32::MAX, &vec![bad_gain, input(1, 1)], &vec![], String::from("rig"), &CODES);
    assert!(matches!(sampler, Err(DaqError::GainConfigError)));
}

#[test]
fn a_sampler_cannot_be_triggered_before_it_is_armed() {
    let boards = vec![input(0, 1)];
    let outputs = vec![OutputConfig { device: 3 }];
    let mut sampler = Sampler::new(1000, 4, &boards, &outputs, String::from("rig"), &CODES).unwrap();
    assert_eq!(sampler.topic(), "rig");
    assert_eq!(sampler.boards().len(), 1);
    assert_eq!(sampler.outputs().len(), 1);
    assert_eq!(sampler.outputs()[0].topic(), "rig");
    assert!(sampler.is_clear());
    assert_eq!(sampler.trigger(), Err(DaqError::StreamStateError));
    for action in sampler.plan() {
        sampler.record(action);
    }
    assert!(sampler.is_armed());
    assert_eq!(sampler.trigger().unwrap().len(), 3);
    for action in sampler.unwind() {
        sampler.record(action);
    }
    assert!(sampler.is_clear());
    assert_eq!(sampler.trigger(), Err(DaqError::StreamStateError));
}

#[test]
fn the_muxer_of_a_sampler_follows_its_boards() {
    let one = Sampler::new(1000, 4, &vec![input(0, 2)], &vec![], String::from("rig"), &CODES).unwrap();
    assert_eq!(one.muxer().policy(), MuxPolicy::PassThrough);
    assert_eq!(one.muxer().inputs(), 1);
    let boards = vec![input(0, 2), input(1, 1)];
    let two = Sampler::new(1000, 4, &boards, &vec![], String::from("rig"), &CODES).unwrap();
    let mut muxer = two.muxer();
    assert_eq!(muxer.policy(), MuxPolicy::Merge);
    // each scan carries the board's channels and two timestamp slots
    let first = Frame { readings: vec![1.0, 2.0, 0.0, 0.0, 3.0, 4.0, 0.0, 0.0], timestamps: vec![5, 6] };
    let second = Frame { readings: vec![7.0, 0.0, 0.0, 8.0, 0.0, 0.0], timestamps: vec![5, 6] };
    let record = muxer.step(MuxEvent::Cycle(vec![first, second])).unwrap();
    assert_eq!(record.readings, vec![1.0, 2.0, 7.0, 3.0, 4.0, 8.0]);
    assert_eq!(record.timestamps, vec![5, 6]);
}

#[test]
fn one_board_with_two_channels_yields_one_record_per_frame() {
    let masks = EventMasks {
        frame_done: 0x04,
        packet_lost: 0x10,
        buffer_error: 0x20,
        packet_oob: 0x40,
        buffer_done: 0x08,
    };
    let mut manager = manager(vec![input(0, 2)], vec![], 4);
    arm(&mut manager);
    let sampler = manager.sampler().unwrap();
    let board = &sampler.boards()[0];
    let mut muxer = sampler.muxer();
    let mut sink: Vec<Record<f64>> = Vec::new();

    // the driver signals one finished frame
    let step = board.sample(SampleState::Waiting, SampleEvent::Waited(Ok(0x04)), false, &masks);
    assert_eq!(step.next, SampleState::Draining);
    // four scans of two channels each
    let frame = Frame {
        readings: vec![0.1, 0.2, 1.1, 1.2, 2.1, 2.2, 3.1, 3.2],
        timestamps: vec![1000, 2000, 3000, 4000],
    };
    if let Some(record) = muxer.step(MuxEvent::Cycle(vec![frame])) {
        sink.push(record);
    }
    let step = board.sample(step.next, SampleEvent::Drained { remaining: 0 }, false, &masks);
    assert_eq!(step.next, SampleState::Waiting);

    assert_eq!(sink.len(), 1);
    assert_eq!(sink[0].topic, "rig");
    assert_eq!(sink[0].readings.len(), 8);
    assert_eq!(sink[0].timestamps.len(), 4);
    assert_eq!(sink[0].readings, vec![0.1, 0.2, 1.1, 1.2, 2.1, 2.2, 3.1, 3.2]);
    assert_eq!(sink[0].timestamps, vec![1000, 2000, 3000, 4000]);
}
