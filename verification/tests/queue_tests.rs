//! Scenario tests for the action queue: look-ahead, junctions, absolute
//! conversion, thermal ordering, suspension.

use gantry::action::{Action, ActionState, KinematicMove, Move, PrinterAction};
use gantry::queue::ActionQueue;

fn mm(v: i64) -> i64 {
    v * 1_000_000
}

fn fresh_queue() -> ActionQueue {
    ActionQueue::new(ActionState::new())
}

fn axis_move(x: Option<i64>, y: Option<i64>, target: Option<i64>) -> Move {
    Move {
        start_velocity: None,
        target_velocity: target,
        x,
        y,
        z: None,
        e: None,
    }
}

#[test]
fn relative_look_ahead_terminates() {
    // Two collinear moves of 10 mm at a 100 mm/s target, then a flush.
    let mut q = fresh_queue();
    q.push(Action::Move(axis_move(Some(mm(10)), None, Some(mm(100)))));
    q.push(Action::Move(axis_move(Some(mm(10)), None, Some(mm(100)))));
    q.flush();
    let out = q.take_emitted();
    assert_eq!(out.len(), 2);
    // Collinear junction: the exit speed is the full target (the
    // reachability cap sqrt(2 * 3000 mm/s^2 * 10 mm) ~ 244.9 mm/s is
    // higher), so the acceleration solves v^2 = 2 a s.
    assert_eq!(
        out[0],
        PrinterAction::KinematicMove(KinematicMove {
            start_velocity: 0,
            acceleration: 500_000_000,
            x: mm(10),
            y: 0,
            z: 0,
            e: 0,
        })
    );
    // The flushed successor has no look-ahead hint: exit speed zero.
    assert_eq!(
        out[1],
        PrinterAction::KinematicMove(KinematicMove {
            start_velocity: 0,
            acceleration: 0,
            x: mm(10),
            y: 0,
            z: 0,
            e: 0,
        })
    );
}

#[test]
fn junction_corner_limits_exit_speed() {
    // An orthogonal pair: the first move may exit only at the square
    // corner velocity (5 mm/s): a = v^2 / (2 s) = 1.25 mm/s^2.
    let mut q = fresh_queue();
    q.push(Action::Move(axis_move(Some(mm(10)), None, None)));
    q.push(Action::Move(axis_move(None, Some(mm(10)), None)));
    q.flush();
    let out = q.take_emitted();
    assert_eq!(out.len(), 2);
    assert_eq!(
        out[0],
        PrinterAction::KinematicMove(KinematicMove {
            start_velocity: 0,
            acceleration: 1_250_000,
            x: mm(10),
            y: 0,
            z: 0,
            e: 0,
        })
    );
}

#[test]
fn absolute_position_converts_to_relative() {
    let mut q = fresh_queue();
    q.state.absolute_position = true;
    q.state.x_position = Some(mm(5));
    q.push(Action::Move(axis_move(Some(mm(12)), None, None)));
    assert_eq!(q.state.x_position, Some(mm(12)));
    q.flush();
    let out = q.take_emitted();
    assert_eq!(out.len(), 1);
    match out[0] {
        PrinterAction::KinematicMove(k) => {
            assert_eq!(k.x, mm(7));
        }
        _ => panic!("expected a kinematic move"),
    }
}

#[test]
fn thermal_set_defers_behind_pending_move() {
    // Move, bed temperature, move, flush: the temperature emits after the
    // first move and before the second.
    let mut q = fresh_queue();
    q.push(Action::Move(axis_move(Some(mm(10)), None, None)));
    q.push(Action::SetBedTemp(mm(60)));
    q.push(Action::Move(axis_move(Some(mm(10)), None, None)));
    q.flush();
    let out = q.take_emitted();
    assert_eq!(out.len(), 3);
    assert!(matches!(out[0], PrinterAction::KinematicMove(_)));
    assert_eq!(out[1], PrinterAction::SetBedTemp(mm(60)));
    assert!(matches!(out[2], PrinterAction::KinematicMove(_)));
}

#[test]
fn bed_temp_wait_flushes_first() {
    let mut q = fresh_queue();
    q.push(Action::Move(axis_move(Some(mm(10)), None, None)));
    q.push(Action::SetBedTempWait(mm(60)));
    let out = q.take_emitted();
    assert_eq!(out.len(), 2);
    assert!(matches!(out[0], PrinterAction::KinematicMove(_)));
    assert_eq!(out[1], PrinterAction::SetBedTempWait(mm(60)));
}

#[test]
fn extrusion_only_move_becomes_flow() {
    let mut q = fresh_queue();
    q.push(Action::Move(Move {
        start_velocity: None,
        target_velocity: Some(mm(30)),
        x: None,
        y: None,
        z: None,
        e: Some(mm(2)),
    }));
    q.flush();
    let out = q.take_emitted();
    assert_eq!(out.len(), 1);
    match out[0] {
        PrinterAction::ExtrusionMove(x) => {
            assert_eq!(x.flow, mm(30));
            assert_eq!(x.distance, mm(2));
        }
        _ => panic!("expected an extrusion move"),
    }
}

#[test]
fn set_velocity_applies_to_later_moves() {
    let mut q = fresh_queue();
    q.push(Action::SetVelocity(mm(50)));
    // An unspecified target picks up the new maximum: collinear pair so
    // the first exit speed equals the 50 mm/s target.
    q.push(Action::Move(axis_move(Some(mm(10)), None, None)));
    q.push(Action::Move(axis_move(Some(mm(10)), None, None)));
    q.flush();
    let out = q.take_emitted();
    match out[0] {
        PrinterAction::KinematicMove(k) => {
            // a = v^2 / (2 s) with v = 50 mm/s, s = 10 mm.
            assert_eq!(k.acceleration, 125_000_000);
        }
        _ => panic!("expected a kinematic move"),
    }
}

#[test]
fn suspended_queue_emits_nothing() {
    let mut q = fresh_queue();
    q.suspend();
    q.push(Action::Move(axis_move(Some(mm(10)), None, None)));
    q.push(Action::SetBedTemp(mm(60)));
    q.flush();
    assert_eq!(q.take_emitted().len(), 0);
    q.resume();
    q.push(Action::SetBedTemp(mm(60)));
    assert_eq!(q.take_emitted().len(), 1);
}

#[test]
fn positions_accumulate_over_accepted_moves() {
    let mut q = fresh_queue();
    q.state.x_position = Some(0);
    q.state.y_position = Some(0);
    q.push(Action::Move(axis_move(Some(mm(3)), Some(mm(4)), None)));
    q.push(Action::Move(axis_move(Some(mm(-1)), None, None)));
    q.flush();
    assert_eq!(q.state.x_position, Some(mm(2)));
    assert_eq!(q.state.y_position, Some(mm(4)));
    assert_eq!(q.state.e_position, 0);
}
