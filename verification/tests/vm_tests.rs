//! Tests of the G-code virtual machine: dispatch, scripts, file runs and
//! the line counter.

use gantry::action::{ActionState, PrinterAction};
use gantry::gcode::GcodeFile;
use gantry::queue::ActionQueue;
use gantry::vm::{GcodeVM, VmError};

fn fresh_vm() -> GcodeVM {
    GcodeVM::new(ActionQueue::new(ActionState::new()))
}

fn mm(v: i64) -> i64 {
    v * 1_000_000
}

#[test]
fn linear_move_script_emits_segments() {
    let mut vm = fresh_vm();
    vm.run_gcode_string("G1 X10 Y0\nG1 X0 Y10\n").unwrap();
    let out = vm.queue.take_emitted();
    assert_eq!(out.len(), 2);
    assert!(matches!(out[0], PrinterAction::KinematicMove(_)));
    assert!(matches!(out[1], PrinterAction::KinematicMove(_)));
}

#[test]
fn feed_rate_only_sets_velocity() {
    let mut vm = fresh_vm();
    // 1200 mm/min is 20 mm/s; a following unlimited move picks it up.
    vm.run_gcode_string("G1 F1200\nG1 X10\nG1 X10\n").unwrap();
    let out = vm.queue.take_emitted();
    assert_eq!(out.len(), 2);
    match out[0] {
        PrinterAction::KinematicMove(k) => {
            // a = v^2 / (2 s) with v = 20 mm/s over 10 mm.
            assert_eq!(k.acceleration, 20_000_000);
        }
        _ => panic!("expected a kinematic move"),
    }
}

#[test]
fn comments_and_blanks_are_skipped() {
    let mut vm = fresh_vm();
    vm.run_gcode_string("; prologue\n\n  G1 X1 ; note\n").unwrap();
    let out = vm.queue.take_emitted();
    assert_eq!(out.len(), 1);
}

#[test]
fn unknown_command_is_an_error() {
    let mut vm = fresh_vm();
    let r = vm.run_gcode_string("M104 S200\n");
    assert_eq!(r, Err(VmError::UnknownCommand));
}

#[test]
fn bad_parameter_is_an_error() {
    let mut vm = fresh_vm();
    let r = vm.run_gcode_string("G1 Xnope\n");
    assert_eq!(r, Err(VmError::InvalidParam));
}

#[test]
fn lowercase_and_case_mixed_commands_dispatch() {
    let mut vm = fresh_vm();
    vm.run_gcode_string("g0 x5\nG1 y5\n").unwrap();
    let out = vm.queue.take_emitted();
    assert_eq!(out.len(), 2);
}

#[test]
fn suspended_vm_short_circuits() {
    let mut vm = fresh_vm();
    vm.suspend();
    assert!(vm.run_gcode_string("G1 X10\n").is_ok());
    assert!(vm.run_gcode_string("M9999\n").is_ok());
    assert_eq!(vm.queue.take_emitted().len(), 0);
    vm.resume();
    vm.run_gcode_string("G1 X10\n").unwrap();
    assert_eq!(vm.queue.take_emitted().len(), 1);
}

#[test]
fn gcode_line_counts_file_progress() {
    let mut vm = fresh_vm();
    let file = GcodeFile::parse("G1 X1\nG1 X2\nG1 X3\n");
    assert_eq!(file.commands.len(), 3);
    vm.run_gcode_file(&file).unwrap();
    assert_eq!(vm.queue.state.gcode_line, 3);
    // A second run resets the counter to zero before counting up again.
    let short = GcodeFile::parse("G1 X1\n");
    vm.run_gcode_file(&short).unwrap();
    assert_eq!(vm.queue.state.gcode_line, 1);
}

#[test]
fn file_run_stops_at_first_error() {
    let mut vm = fresh_vm();
    let file = GcodeFile::parse("G1 X1\nM104 S200\nG1 X2\n");
    let r = vm.run_gcode_file(&file);
    assert_eq!(r, Err(VmError::UnknownCommand));
    // One command completed before the failure.
    assert_eq!(vm.queue.state.gcode_line, 1);
}

#[test]
fn later_parameters_override_earlier_ones() {
    let mut vm = fresh_vm();
    vm.queue.state.x_position = Some(0);
    vm.run_gcode_string("G1 X5 X7\n").unwrap();
    vm.queue.flush();
    assert_eq!(vm.queue.state.x_position, Some(mm(7)));
}

#[test]
fn suspended_file_run_leaves_counter_at_zero() {
    let mut vm = fresh_vm();
    let file = GcodeFile::parse("G1 X1\nG1 X2\n");
    vm.run_gcode_file(&file).unwrap();
    assert_eq!(vm.queue.state.gcode_line, 2);
    vm.suspend();
    // A suspended run returns at once: the counter resets to zero and
    // stays there, and nothing new is emitted (the one segment seen is
    // the first run's look-ahead release; its successor stays buffered).
    assert!(vm.run_gcode_file(&file).is_ok());
    assert_eq!(vm.queue.state.gcode_line, 0);
    assert_eq!(vm.queue.take_emitted().len(), 1);
    vm.resume();
    vm.run_gcode_file(&file).unwrap();
    assert_eq!(vm.queue.state.gcode_line, 2);
}
