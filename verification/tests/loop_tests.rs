use wii_joystick::control::ControlLoop;
use wii_joystick::control::JoystickCommand;
use wii_joystick::control::PinCommand;
use wii_joystick::control::ReadOutcome;
use wii_joystick::control::SinkOutcome;
use wii_joystick::mapper::map_joystick;
use wii_joystick::sample::CalibratedSample;
use wii_joystick::script::run_joystick;
use wii_joystick::script::run_pin;

fn sample(button_b: bool, x: i8, y: i8) -> CalibratedSample {
    CalibratedSample {
        button_b,
        button_a: false,
        button_y: false,
        button_x: false,
        button_trigger_l: false,
        button_trigger_r: false,
        button_minus: false,
        button_plus: false,
        joystick_left_x: x,
        joystick_left_y: y,
    }
}

#[test]
fn scripted_run_recovers_from_every_read_failure() {
    let s1 = sample(true, 1, 2);
    let s2 = sample(false, -3, 4);
    let s3 = sample(true, 5, -6);
    let reads = vec![
        ReadOutcome::Failure,
        ReadOutcome::Failure,
        ReadOutcome::Success(s1),
        ReadOutcome::Success(s2),
        ReadOutcome::Failure,
        ReadOutcome::Success(s3),
    ];
    let sinks = vec![SinkOutcome::Delivered; 6];
    let t = run_joystick(&reads, &sinks);
    assert_eq!(t.reinits, 3);
    assert!(!t.halted);
    assert_eq!(
        t.reports,
        vec![map_joystick(&s1), map_joystick(&s2), map_joystick(&s3)]
    );
}

#[test]
fn empty_script_does_nothing() {
    let t = run_joystick(&Vec::new(), &Vec::new());
    assert!(t.reports.is_empty());
    assert_eq!(t.reinits, 0);
    assert!(!t.halted);
}

#[test]
fn would_block_drops_one_report_and_the_loop_proceeds() {
    let s1 = sample(true, 1, 1);
    let s2 = sample(false, 2, 2);
    let reads = vec![ReadOutcome::Success(s1), ReadOutcome::Success(s2)];
    let sinks = vec![SinkOutcome::WouldBlock, SinkOutcome::Delivered];
    let t = run_joystick(&reads, &sinks);
    assert!(!t.halted);
    assert_eq!(t.reinits, 0);
    assert_eq!(t.reports, vec![map_joystick(&s2)]);
}

#[test]
fn fatal_sink_failure_halts_all_later_output() {
    let s1 = sample(true, 1, 1);
    let s2 = sample(false, 2, 2);
    let reads = vec![
        ReadOutcome::Success(s1),
        ReadOutcome::Success(s2),
        ReadOutcome::Failure,
        ReadOutcome::Success(s1),
    ];
    let sinks = vec![
        SinkOutcome::Delivered,
        SinkOutcome::Failed,
        SinkOutcome::Delivered,
        SinkOutcome::Delivered,
    ];
    let t = run_joystick(&reads, &sinks);
    assert!(t.halted);
    assert_eq!(t.reports, vec![map_joystick(&s1)]);
    assert_eq!(t.reinits, 0);
}

#[test]
fn plan_maps_success_and_reinitializes_on_failure() {
    let state = ControlLoop::new();
    let s = sample(true, 9, -9);
    assert_eq!(
        state.plan_joystick(&ReadOutcome::Success(s)),
        Some(JoystickCommand::Emit(map_joystick(&s)))
    );
    assert_eq!(
        state.plan_joystick(&ReadOutcome::Failure),
        Some(JoystickCommand::Reinitialize)
    );
    assert_eq!(
        state.plan_pin(&ReadOutcome::Success(s)),
        Some(PinCommand::SetLevel(true))
    );
    assert_eq!(state.plan_pin(&ReadOutcome::Failure), Some(PinCommand::Reinitialize));
}

#[test]
fn backpressure_is_benign_but_any_other_failure_halts() {
    let mut state = ControlLoop::new();
    state.note_sink(&SinkOutcome::Delivered);
    assert!(!state.halted);
    state.note_sink(&SinkOutcome::WouldBlock);
    assert!(!state.halted);
    state.note_sink(&SinkOutcome::Failed);
    assert!(state.halted);
    let s = sample(false, 0, 0);
    assert_eq!(state.plan_joystick(&ReadOutcome::Success(s)), None);
    assert_eq!(state.plan_joystick(&ReadOutcome::Failure), None);
    assert_eq!(state.plan_pin(&ReadOutcome::Success(s)), None);
}

#[test]
fn pin_run_sets_button_b_levels_in_order() {
    let reads = vec![
        ReadOutcome::Success(sample(true, 0, 0)),
        ReadOutcome::Failure,
        ReadOutcome::Success(sample(false, 7, 7)),
    ];
    let writes_ok = vec![true, true, true];
    let t = run_pin(&reads, &writes_ok);
    assert!(!t.halted);
    assert_eq!(t.reinits, 1);
    assert_eq!(t.levels, vec![true, false]);
}

#[test]
fn pin_write_failure_halts_the_run() {
    let reads = vec![
        ReadOutcome::Success(sample(true, 0, 0)),
        ReadOutcome::Success(sample(false, 0, 0)),
        ReadOutcome::Failure,
    ];
    let writes_ok = vec![true, false, true];
    let t = run_pin(&reads, &writes_ok);
    assert!(t.halted);
    assert_eq!(t.levels, vec![true]);
    assert_eq!(t.reinits, 0);
}

#[test]
fn pin_note_write_halts_only_on_failure() {
    let mut state = ControlLoop::new();
    state.note_pin_write(true);
    assert!(!state.halted);
    state.note_pin_write(false);
    assert!(state.halted);
}
