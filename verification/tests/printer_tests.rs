//! Tests of the printer lifecycle, the instance gates and authentication.

use gantry::action::Action;
use gantry::action::Move;
use gantry::api::PrinterErrorCode;
use gantry::auth::AuthRegistry;
use gantry::config::InstanceConfig;
use gantry::gcode::GcodeFile;
use gantry::instance::Instance;
use gantry::printer::{Printer, State};

fn mm(v: i64) -> i64 {
    v * 1_000_000
}

fn plain_move(x: i64) -> Action {
    Action::Move(Move {
        start_velocity: None,
        target_velocity: None,
        x: Some(x),
        y: None,
        z: None,
        e: None,
    })
}

#[test]
fn restart_with_valid_config_reaches_ready() {
    let mut p = Printer::new();
    assert!(matches!(p.state, State::Startup));
    p.restart(Ok("[printer]\nmax_velocity: 300\n".to_string()));
    assert!(matches!(p.state, State::Ready));
    assert!(p.event_loop_running);
}

#[test]
fn restart_with_broken_config_reports_parse_error() {
    let mut p = Printer::new();
    p.restart(Ok("not a section\n".to_string()));
    match &p.state {
        State::Error { code, .. } => assert_eq!(*code, PrinterErrorCode::PrinterConfigParseError),
        other => panic!("expected an error state, got {:?}", other),
    }
}

#[test]
fn restart_passes_read_failures_through() {
    let mut p = Printer::new();
    p.restart(Err((PrinterErrorCode::FileNotFound, "missing".to_string())));
    match &p.state {
        State::Error { code, message } => {
            assert_eq!(*code, PrinterErrorCode::FileNotFound);
            assert_eq!(message, "missing");
        }
        other => panic!("expected an error state, got {:?}", other),
    }
}

#[test]
fn emergency_stop_drops_pending_and_keeps_positions() {
    let mut p = Printer::new();
    p.restart(Ok("[printer]\n".to_string()));
    p.vm.queue.state.x_position = Some(0);
    // Two unflushed moves: one is emitted by the look-ahead, one stays
    // buffered.
    p.vm.queue.push(plain_move(mm(10)));
    p.vm.queue.push(plain_move(mm(10)));
    p.emergency_stop();
    assert!(matches!(p.state, State::Shutdown));
    // Drain whatever was already on the channel (the aborted loop's
    // leftovers); nothing new can appear afterwards.
    let _ = p.take_emitted();
    p.vm.queue.push(plain_move(mm(10)));
    p.vm.queue.flush();
    assert_eq!(p.take_emitted().len(), 0);
    // A restart clears the buffered move but keeps committed positions.
    p.restart(Ok("[printer]\n".to_string()));
    assert_eq!(p.vm.queue.state.x_position, Some(mm(20)));
    p.vm.queue.flush();
    assert_eq!(p.take_emitted().len(), 0);
}

#[test]
fn print_jobs_run_one_at_a_time() {
    let mut p = Printer::new();
    p.restart(Ok("[printer]\n".to_string()));
    let file = GcodeFile::parse("G1 X1\nG1 X2\n");
    let run_now = p.spawn_print_job(7, file.clone(), Vec::new());
    assert!(run_now);
    let _ = p.spawn_print_job(8, file, Vec::new());
    let (more, outcome) = p.run_next_print_job();
    assert!(outcome.is_ok());
    assert!(more);
    assert!(!p.is_gcode_running());
    let (more2, outcome2) = p.run_next_print_job();
    assert!(outcome2.is_ok());
    assert!(!more2);
}

#[test]
fn auth_flow_issues_validates_and_expires() {
    let mut reg = AuthRegistry::new();
    reg.add_user("42".to_string(), "secret".to_string());
    let inst = Instance::create(
        0,
        "left".to_string(),
        InstanceConfig { uuid: 42, config_path: "printer.cfg".to_string() },
        "/data/left".to_string(),
    );
    // A wrong password fails.
    let bad = inst.login(&mut reg, "nope", 1000);
    assert_eq!(bad.error.code, PrinterErrorCode::AuthFailed);
    // The right one yields a token that validates.
    let ok = inst.login(&mut reg, "secret", 1000);
    let tokens = ok.result.expect("login should succeed");
    assert!(inst.validate_token(&reg, &tokens.token, 1500).is_ok());
    // Past its lifetime the token reports a timeout.
    let late = inst.validate_token(&reg, &tokens.token, 1000 + 3600);
    assert_eq!(late.unwrap_err().code, PrinterErrorCode::AuthTokenTimeout);
    // An unknown token is invalid.
    let junk = inst.validate_token(&reg, "tok-999", 1500);
    assert_eq!(junk.unwrap_err().code, PrinterErrorCode::AuthTokenInvalid);
    // Logging out removes the session.
    assert!(inst.logout(&mut reg, &tokens.token).result.is_some());
    let gone = inst.validate_token(&reg, &tokens.token, 1500);
    assert_eq!(gone.unwrap_err().code, PrinterErrorCode::AuthTokenInvalid);
}

#[test]
fn state_validation_reports_lifecycle_errors() {
    let mut reg = AuthRegistry::new();
    reg.add_user("42".to_string(), "secret".to_string());
    let mut inst = Instance::create(
        0,
        "left".to_string(),
        InstanceConfig { uuid: 42, config_path: "printer.cfg".to_string() },
        "/data/left".to_string(),
    );
    let tokens = inst.login(&mut reg, "secret", 0).result.unwrap();
    // Starting up: the check reports the startup state.
    let e = inst.validate_token_state(&reg, &tokens.token, 10).unwrap();
    assert_eq!(e.code, PrinterErrorCode::StartupState);
    // Ready: validation succeeds.
    inst.restart(Ok("[printer]\n".to_string()));
    assert!(inst.validate_token_state(&reg, &tokens.token, 10).is_none());
    // Shut down: the check reports the shutdown state.
    inst.emergency_stop();
    let e2 = inst.validate_token_state(&reg, &tokens.token, 10).unwrap();
    assert_eq!(e2.code, PrinterErrorCode::ShutdownState);
}

#[test]
fn run_gcode_maps_failures_to_parse_errors() {
    let mut inst = Instance::create(
        0,
        "left".to_string(),
        InstanceConfig { uuid: 42, config_path: "printer.cfg".to_string() },
        "/data/left".to_string(),
    );
    inst.restart(Ok("[printer]\n".to_string()));
    assert!(inst.run_gcode("G1 X5\n").result.is_some());
    let bad = inst.run_gcode("M104 S200\n");
    assert_eq!(bad.error.code, PrinterErrorCode::GcodeParseError);
}

#[test]
fn start_print_job_queues_and_reports_an_id() {
    let mut inst = Instance::create(
        0,
        "left".to_string(),
        InstanceConfig { uuid: 42, config_path: "printer.cfg".to_string() },
        "/data/left".to_string(),
    );
    inst.restart(Ok("[printer]\n".to_string()));
    let file = GcodeFile::parse("G1 X1\n");
    let r = inst.start_print_job(Ok(file), Vec::new());
    let id = r.result.expect("the job should be accepted").job_id;
    // A hyphenated 128-bit identifier: 32 hex digits and 4 hyphens.
    assert_eq!(id.len(), 36);
    assert_eq!(inst.printer.print_job_queue.len(), 1);
    // An open failure passes straight through.
    let denied = inst.start_print_job(
        Err(gantry::api::PrinterError {
            code: PrinterErrorCode::GcodeParseError,
            message: "bad file".to_string(),
        }),
        Vec::new(),
    );
    assert_eq!(denied.error.code, PrinterErrorCode::GcodeParseError);
}

#[test]
fn get_info_reflects_the_state() {
    let mut inst = Instance::create(
        0,
        "left".to_string(),
        InstanceConfig { uuid: 42, config_path: "printer.cfg".to_string() },
        "/data/left".to_string(),
    );
    let info = inst.get_info().result.unwrap();
    assert_eq!(info.state, gantry::api::PrinterState::Startup);
    inst.restart(Ok("broken\n".to_string()));
    let info2 = inst.get_info().result.unwrap();
    assert_eq!(info2.state, gantry::api::PrinterState::Error);
    assert_eq!(info2.error_state_code, PrinterErrorCode::PrinterConfigParseError);
}
