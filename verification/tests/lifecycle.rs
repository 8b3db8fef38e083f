use powerdna::lifecycle::{arm_plan, Action, Ledger};

fn count(plan: &[Action], wanted: fn(&Action) -> bool) -> usize {
    plan.iter().filter(|action| wanted(action)).count()
}

#[test]
fn arming_brings_up_boards_then_muxer_then_outputs_then_capture() {
    assert_eq!(
        arm_plan(2, 1),
        vec![
            Action::EnterConfigMode { board: 0 },
            Action::CreateAcb { board: 0 },
            Action::ArmAcquisition { board: 0 },
            Action::RegisterEvents { board: 0 },
            Action::AcquireConverter { board: 0 },
            Action::SpawnBoard { board: 0 },
            Action::EnterConfigMode { board: 1 },
            Action::CreateAcb { board: 1 },
            Action::ArmAcquisition { board: 1 },
            Action::RegisterEvents { board: 1 },
            Action::AcquireConverter { board: 1 },
            Action::SpawnBoard { board: 1 },
            Action::SpawnMuxer,
            Action::SetupEdgeEvents { output: 0 },
            Action::SpawnOutput { output: 0 },
            Action::EnableCapture,
        ]
    );
    assert_eq!(arm_plan(0, 0), vec![Action::SpawnMuxer, Action::EnableCapture]);
}

#[test]
fn a_new_ledger_holds_nothing() {
    let ledger = Ledger::new(3, 2);
    assert!(ledger.is_clear());
    assert!(!ledger.is_armed());
    assert_eq!(ledger.unwind(), vec![]);
}

#[test]
fn an_armed_stream_is_released_in_the_safe_order() {
    let mut ledger = Ledger::new(2, 1);
    for action in arm_plan(2, 1) {
        assert!(!ledger.is_armed());
        ledger.record(action);
    }
    assert!(ledger.is_armed());
    assert!(!ledger.is_clear());
    let release = ledger.unwind();
    assert_eq!(
        release,
        vec![
            Action::DisableCapture,
            Action::RaiseStop,
            Action::JoinBoard { board: 0 },
            Action::JoinBoard { board: 1 },
            Action::JoinOutput { output: 0 },
            Action::DestroyAcb { board: 0 },
            Action::DestroyAcb { board: 1 },
            Action::TeardownEdgeEvents { output: 0 },
            Action::JoinMuxer,
        ]
    );
    for action in release {
        ledger.record(action);
    }
    assert!(ledger.is_clear());
    assert!(!ledger.is_armed());
    assert_eq!(ledger.unwind(), vec![]);
}

#[test]
fn created_and_destroyed_buffers_balance_wherever_arming_stops() {
    let plan = arm_plan(3, 2);
    for done in 0..=plan.len() {
        let mut ledger = Ledger::new(3, 2);
        for action in &plan[..done] {
            ledger.record(*action);
        }
        let release = ledger.unwind();
        let created = count(&plan[..done], |a| matches!(a, Action::CreateAcb { .. }));
        let destroyed = count(&release, |a| matches!(a, Action::DestroyAcb { .. }));
        assert_eq!(created, destroyed, "after {} steps", done);
        let spawned = count(&plan[..done], |a| {
            matches!(a, Action::SpawnBoard { .. } | Action::SpawnOutput { .. } | Action::SpawnMuxer)
        });
        let joined = count(&release, |a| {
            matches!(a, Action::JoinBoard { .. } | Action::JoinOutput { .. } | Action::JoinMuxer)
        });
        assert_eq!(spawned, joined, "after {} steps", done);
        let set_up = count(&plan[..done], |a| matches!(a, Action::SetupEdgeEvents { .. }));
        let torn_down = count(&release, |a| matches!(a, Action::TeardownEdgeEvents { .. }));
        assert_eq!(set_up, torn_down, "after {} steps", done);
        for action in release {
            ledger.record(action);
        }
        assert!(ledger.is_clear(), "after {} steps", done);
    }
}

#[test]
fn a_failure_after_the_first_buffer_releases_just_that_buffer() {
    let mut ledger = Ledger::new(2, 0);
    ledger.record(Action::EnterConfigMode { board: 0 });
    ledger.record(Action::CreateAcb { board: 0 });
    // arming the buffer failed: no thread runs yet, so no stop is raised
    assert_eq!(ledger.unwind(), vec![Action::DestroyAcb { board: 0 }]);
}

#[test]
fn threads_are_stopped_and_joined_before_handles_go() {
    let mut ledger = Ledger::new(2, 1);
    for action in arm_plan(2, 1).into_iter().take(9) {
        ledger.record(action);
    }
    // board 0 is up; board 1 has its buffer but no thread yet
    assert_eq!(
        ledger.unwind(),
        vec![
            Action::RaiseStop,
            Action::JoinBoard { board: 0 },
            Action::DestroyAcb { board: 0 },
            Action::DestroyAcb { board: 1 },
        ]
    );
}

#[test]
fn steps_on_boards_that_do_not_exist_change_nothing() {
    let mut ledger = Ledger::new(1, 1);
    ledger.record(Action::CreateAcb { board: 1 });
    ledger.record(Action::SpawnBoard { board: 7 });
    ledger.record(Action::SetupEdgeEvents { output: 1 });
    ledger.record(Action::SpawnOutput { output: usize::MAX });
    assert!(ledger.is_clear());
    assert_eq!(ledger.unwind(), vec![]);
}

#[test]
fn a_raised_stop_unarms_a_stream() {
    let mut ledger = Ledger::new(1, 0);
    for action in arm_plan(1, 0) {
        ledger.record(action);
    }
    assert!(ledger.is_armed());
    ledger.record(Action::RaiseStop);
    assert!(!ledger.is_armed());
}
