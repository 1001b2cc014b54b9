//! Printer lifecycle: state machine, job queue, restart and emergency
//! stop.
//!
//! The event loop itself is driven from outside: the queue's emitted
//! actions are drained with [`crate::queue::ActionQueue::take_emitted`]
//! and forwarded to the physical driver, and a pending `run next job`
//! event is served by [`Printer::run_next_print_job`].  The emergency stop
//! suspends the queue and the virtual machine, so — by the suspension
//! law in [`crate::laws`] — nothing is emitted after it returns, until a
//! restart resumes them.

use vstd::prelude::*;

use crate::api::PrinterErrorCode;
use crate::config::Config;
use crate::gcode::{commands_views, GcodeFile};
use crate::queue::{ActionQueue, QueueModel};
use crate::action::ActionState;
use crate::vm::{run_file, run_string, GcodeVM, VmError};

verus! {

/// Lifecycle state of one printer.
#[derive(Debug, Clone)]
pub enum State {
    Startup,
    Ready,
    Error { code: PrinterErrorCode, message: String },
    Shutdown,
}

/// What the event loop consumes.
#[derive(Debug, Clone)]
pub enum PrinterEvent {
    Action(crate::action::PrinterAction),
    RunNextPrintJob,
}

/// One queued print job.
#[derive(Debug, Clone)]
pub struct PrintJob {
    /// Job identifier.
    pub id: u128,
    /// The parsed file to print.
    pub file: GcodeFile,
    /// When the job started, as a Unix timestamp.
    pub start_timestamp: Option<u64>,
    /// Objects excluded from printing.
    pub exclude_objects: Vec<String>,
}

/// A printer: lifecycle state, virtual machine (owning the action queue)
/// and job queue.
pub struct Printer {
    /// Lifecycle state.
    pub state: State,
    /// The G-code virtual machine; its queue holds the kinematic state
    /// and the emitted actions.
    pub vm: GcodeVM,
    /// Waiting print jobs, first to run in front.
    pub print_job_queue: Vec<PrintJob>,
    /// Whether an event loop serves this printer; cleared by the
    /// emergency stop, set by a completed restart.
    pub event_loop_running: bool,
}

impl Printer {
    /// The machine limits hold, and every queued job is countable.
    pub open spec fn wf(self) -> bool {
        &&& self.vm.wf()
        &&& forall|j: int|
            0 <= j < self.print_job_queue@.len() ==> (#[trigger] self.print_job_queue@[j]).file.commands@.len() <= u64::MAX
    }

    /// A fresh printer: starting up, stock limits (100 mm/s, 3000 mm/s^2,
    /// a 5 mm/s corner velocity, a cruise ratio of one half), relative
    /// positioning, unknown X/Y/Z positions, a zero extruder position and
    /// line counter, nothing buffered, deferred or emitted, no job queued,
    /// no event loop yet.
    pub fn new() -> (p: Printer)
        ensures
            p.state is Startup,
            p.print_job_queue@.len() == 0,
            !p.event_loop_running,
            !p.vm.spec_suspended(),
            !p.vm.queue@.suspended,
            p.vm.queue@.first_move is None,
            p.vm.queue@.deferred == Seq::<crate::action::PrinterAction>::empty(),
            p.vm.queue@.emitted == Seq::<crate::action::PrinterAction>::empty(),
            p.vm.queue@.st.max_velocity == 100_000_000,
            p.vm.queue@.st.max_accel == 3_000_000_000,
            p.vm.queue@.st.square_corner_velocity == 5_000_000,
            p.vm.queue@.st.minimum_cruise_ratio == 500_000,
            !p.vm.queue@.st.absolute_position,
            !p.vm.queue@.st.absolute_extrusion,
            p.vm.queue@.st.gcode_line == 0,
            !p.vm.queue@.st.gcode_running,
            p.vm.queue@.st.exclude_objects == Seq::<Seq<char>>::empty(),
            p.vm.queue@.st.x_origin == 0 && p.vm.queue@.st.y_origin == 0 && p.vm.queue@.st.z_origin == 0,
            p.vm.queue@.st.x_position is None,
            p.vm.queue@.st.y_position is None,
            p.vm.queue@.st.z_position is None,
            p.vm.queue@.st.e_position == 0,
            p.wf(),
    {
        let state = ActionState::new();
        let queue = ActionQueue::new(state);
        let vm = GcodeVM::new(queue);
        Printer {
            state: State::Startup,
            vm,
            print_job_queue: Vec::new(),
            event_loop_running: false,
        }
    }

    /// The lifecycle state.
    pub fn state(&self) -> (s: &State)
        ensures
            s == &self.state,
    {
        &self.state
    }

    /// Whether a file-based job is running.
    pub fn is_gcode_running(&self) -> (r: bool)
        ensures
            r == self.vm.queue@.st.gcode_running,
    {
        self.vm.queue.is_gcode_running()
    }

    /// Stop everything at once: the event loop is abandoned, the queue
    /// and the virtual machine are suspended — so nothing further is
    /// emitted — and the state becomes `Shutdown`.  Pending moves stay
    /// buffered (and unreachable) until a restart clears them; committed
    /// positions are untouched.
    pub fn emergency_stop(&mut self)
        requires
            old(self).wf(),
        ensures
            final(self).wf(),
            final(self).state is Shutdown,
            !final(self).event_loop_running,
            final(self).vm.spec_suspended(),
            final(self).vm.queue@ == (QueueModel { suspended: true, ..old(self).vm.queue@ }),
            final(self).print_job_queue == old(self).print_job_queue,
    {
        self.event_loop_running = false;
        self.vm.queue.suspend();
        self.vm.suspend();
        self.state = State::Shutdown;
    }

    /// Apply the outcome of reading and parsing the configuration: a read
    /// failure or a parse failure puts the printer into the matching
    /// error state; success clears and resumes the queue and the virtual
    /// machine and reaches `Ready`.  Committed positions survive in
    /// either case.
    pub fn finish_restart(&mut self, parsed: Result<Config, (PrinterErrorCode, String)>)
        requires
            old(self).wf(),
        ensures
            final(self).wf(),
            final(self).print_job_queue == old(self).print_job_queue,
            match parsed {
                Err((code, message)) => {
                    &&& final(self).state == (State::Error { code, message })
                    &&& final(self).vm.queue@ == old(self).vm.queue@
                    &&& final(self).event_loop_running == old(self).event_loop_running
                },
                Ok(_) => {
                    &&& final(self).state is Ready
                    &&& final(self).event_loop_running
                    &&& !final(self).vm.spec_suspended()
                    &&& final(self).vm.queue@ == (QueueModel {
                        suspended: false,
                        first_move: None,
                        deferred: Seq::<crate::action::PrinterAction>::empty(),
                        ..old(self).vm.queue@
                    })
                },
            },
    {
        match parsed {
            Err((code, message)) => {
                self.state = State::Error { code, message };
            },
            Ok(_config) => {
                self.vm.queue.clear();
                self.vm.queue.resume();
                self.vm.resume();
                self.event_loop_running = true;
                self.state = State::Ready;
                proof {
                    assert(self.vm.queue@ =~~= (QueueModel {
                        suspended: false,
                        first_move: None,
                        deferred: Seq::<crate::action::PrinterAction>::empty(),
                        ..old(self).vm.queue@
                    }));
                }
            },
        }
    }

    /// Restart from configuration text (or the failure that reading it
    /// produced): the printer passes through `Startup`, parses the text,
    /// and reaches `Ready` exactly when the text derives from the
    /// configuration grammar; otherwise it enters the error state whose
    /// code is `FileNotFound`, `FileReadError` or
    /// `PrinterConfigParseError`.
    pub fn restart(&mut self, source: Result<String, (PrinterErrorCode, String)>)
        requires
            old(self).wf(),
        ensures
            final(self).wf(),
            final(self).print_job_queue == old(self).print_job_queue,
            match source {
                Err((code, message)) => final(self).state == (State::Error { code, message }),
                Ok(text) => {
                    &&& (final(self).state is Ready <==> crate::config::spec_parse_config(
                        text@,
                    ) is Ok)
                    &&& final(self).state is Ready || (
                    final(self).state matches State::Error {
                        code: PrinterErrorCode::PrinterConfigParseError,
                        ..
                    })
                },
            },
            (final(self).state is Ready) ==> {
                &&& final(self).event_loop_running
                &&& !final(self).vm.spec_suspended()
                &&& final(self).vm.queue@ == (QueueModel {
                    suspended: false,
                    first_move: None,
                    deferred: Seq::<crate::action::PrinterAction>::empty(),
                    ..old(self).vm.queue@
                })
            },
    {
        self.state = State::Startup;
        match source {
            Err((code, message)) => {
                self.finish_restart(Err((code, message)));
            },
            Ok(text) => {
                match Config::parse(text.as_str()) {
                    Ok(config) => {
                        self.finish_restart(Ok(config));
                    },
                    Err(e) => {
                        self.finish_restart(
                            Err((PrinterErrorCode::PrinterConfigParseError, e.message)),
                        );
                    },
                }
            },
        }
    }

    /// Queue a print job carrying exactly the given file and exclusion
    /// list, with no start time yet; returns whether the caller should
    /// post a `run next job` event (no job was running).
    pub fn spawn_print_job(
        &mut self,
        id: u128,
        file: GcodeFile,
        exclude_objects: Vec<String>,
    ) -> (run_now: bool)
        requires
            old(self).wf(),
            file.commands@.len() <= u64::MAX,
        ensures
            final(self).wf(),
            final(self).print_job_queue@.len() == old(self).print_job_queue@.len() + 1,
            final(self).print_job_queue@.last().id == id,
            final(self).print_job_queue@.last().file == file,
            final(self).print_job_queue@.last().start_timestamp is None,
            final(self).print_job_queue@.last().exclude_objects == exclude_objects,
            forall|j: int|
                0 <= j < old(self).print_job_queue@.len() ==> final(self).print_job_queue@[j]
                    == old(self).print_job_queue@[j],
            run_now == !old(self).vm.queue@.st.gcode_running,
            final(self).vm == old(self).vm,
            final(self).state == old(self).state,
            final(self).event_loop_running == old(self).event_loop_running,
    {
        self.print_job_queue.push(
            PrintJob { id, file, start_timestamp: None, exclude_objects },
        );
        !self.is_gcode_running()
    }

    /// Serve one `run next job` event: when no job is running and one is
    /// queued, pop it, mark a job running, run its file through the
    /// virtual machine, and clear the mark.  Returns whether more jobs
    /// wait (the event should be re-posted) and the run's outcome.
    pub fn run_next_print_job(&mut self) -> (r: (bool, Result<(), VmError>))
        requires
            old(self).wf(),
        ensures
            final(self).wf(),
            old(self).vm.queue@.st.gcode_running ==> *final(self) == *old(self) && r == (
                false,
                Ok::<(), VmError>(()),
            ),
            !old(self).vm.queue@.st.gcode_running && old(self).print_job_queue@.len() == 0
                ==> *final(self) == *old(self) && r == (false, Ok::<(), VmError>(())),
            (!old(self).vm.queue@.st.gcode_running && old(self).print_job_queue@.len() > 0)
                ==> {
                let job = old(self).print_job_queue@[0];
                let started = crate::queue::QueueModel {
                    st: crate::action::StateModel {
                        gcode_running: true,
                        ..old(self).vm.queue@.st
                    },
                    ..old(self).vm.queue@
                };
                let (qm, e) = run_file(
                    old(self).vm.spec_suspended(),
                    started,
                    commands_views(job.file.commands@),
                );
                &&& final(self).print_job_queue@ == old(self).print_job_queue@.drop_first()
                &&& final(self).vm.queue@ == (crate::queue::QueueModel {
                    st: crate::action::StateModel { gcode_running: false, ..qm.st },
                    ..qm
                })
                &&& r.0 == (old(self).print_job_queue@.len() > 1)
                &&& r.1 == (match e {
                    Some(err) => Err::<(), VmError>(err),
                    None => Ok(()),
                })
            },
    {
        if self.is_gcode_running() {
            return (false, Ok(()));
        }
        if self.print_job_queue.len() == 0 {
            return (false, Ok(()));
        }
        let job = self.print_job_queue.remove(0);
        self.vm.queue.set_gcode_running(true);
        let outcome = self.vm.run_gcode_file(&job.file);
        self.vm.queue.set_gcode_running(false);
        let more = self.print_job_queue.len() > 0;
        proof {
            assert(self.print_job_queue@ =~= old(self).print_job_queue@.drop_first());
        }
        (more, match outcome {
            Ok(()) => Ok(()),
            Err(e) => Err(e),
        })
    }

    /// Run a G-code script at once, outside the job queue.  Exactly
    /// [`run_string`] over the machine's state.
    pub fn run_gcode_string(&mut self, script: &str) -> (r: Result<(), VmError>)
        requires
            old(self).wf(),
        ensures
            final(self).wf(),
            ({
                let (qm, e) = run_string(
                    old(self).vm.spec_suspended(),
                    old(self).vm.queue@,
                    script@,
                );
                &&& final(self).vm.queue@ == qm
                &&& r == (match e {
                    Some(err) => Err::<(), VmError>(err),
                    None => Ok(()),
                })
            }),
            final(self).state == old(self).state,
            final(self).print_job_queue == old(self).print_job_queue,
    {
        self.vm.run_gcode_string(script)
    }

    /// Drain everything emitted so far, in order; the event loop forwards
    /// these to the physical driver.
    pub fn take_emitted(&mut self) -> (out: Vec<crate::action::PrinterAction>)
        ensures
            out@ == old(self).vm.queue@.emitted,
            final(self).vm.queue@ == (QueueModel {
                emitted: Seq::<crate::action::PrinterAction>::empty(),
                ..old(self).vm.queue@
            }),
            final(self).state == old(self).state,
            final(self).print_job_queue == old(self).print_job_queue,
    {
        self.vm.queue.take_emitted()
    }
}

} // verus!
