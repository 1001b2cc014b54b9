//! The G-code virtual machine: command dispatch over the action queue.
//!
//! The built-in commands are `g0` and `g1` (linear move).  A `G0`/`G1`
//! parameter is a letter followed by a number: `X`, `Y`, `Z`, `E` give
//! displacements or targets, `F` a feed rate in millimetres per minute,
//! divided by sixty into millimetres per second.  If no axis is given but a
//! feed rate is, only the maximum velocity changes; with neither, the
//! command does nothing.

use vstd::prelude::*;

use crate::action::{Action, Move, StateModel};
use crate::gcode::{commands_views, GcodeFile};
use crate::numbers::spec_parse_number;
use crate::numbers::parse_number;
use crate::queue::{spec_flush, spec_push, ActionQueue, QueueModel};
use crate::text::{
    find_char, find_char_exec, spec_trim, split_lines, split_lines_exec, str_chars, subvec,
    tokenize, tokenize_exec, trim,
};

verus! {

/// Why the virtual machine rejected a command.
#[derive(Debug, Clone, Copy, PartialEq, Eq)]
pub enum VmError {
    /// The command name has no handler.
    UnknownCommand,
    /// A `G0`/`G1` parameter did not parse as a number.
    InvalidParam,
}

/// A move with nothing specified.
pub open spec fn empty_move() -> Move {
    Move {
        start_velocity: None,
        target_velocity: None,
        x: None,
        y: None,
        z: None,
        e: None,
    }
}

/// Feed-rate conversion: millimetres per minute to millimetres per second,
/// truncating towards zero.
pub open spec fn div60(v: int) -> int {
    if v >= 0 {
        v / 60
    } else {
        -((-v) / 60)
    }
}

/// One `G0`/`G1` parameter folded into the move being built: the leading
/// letter picks the axis, the rest must parse as a number; an unknown
/// letter is ignored; a malformed number rejects the command.
pub open spec fn apply_param(mv: Move, p: Seq<char>) -> Option<Move> {
    if p.len() == 0 {
        Some(mv)
    } else {
        let rest = p.subrange(1, p.len() as int);
        let c = p[0];
        if c == 'X' || c == 'x' {
            match spec_parse_number(rest) {
                Some(v) => Some(Move { x: Some(v), ..mv }),
                None => None,
            }
        } else if c == 'Y' || c == 'y' {
            match spec_parse_number(rest) {
                Some(v) => Some(Move { y: Some(v), ..mv }),
                None => None,
            }
        } else if c == 'Z' || c == 'z' {
            match spec_parse_number(rest) {
                Some(v) => Some(Move { z: Some(v), ..mv }),
                None => None,
            }
        } else if c == 'E' || c == 'e' {
            match spec_parse_number(rest) {
                Some(v) => Some(Move { e: Some(v), ..mv }),
                None => None,
            }
        } else if c == 'F' || c == 'f' {
            match spec_parse_number(rest) {
                Some(v) => Some(Move { target_velocity: Some(div60(v as int) as i64), ..mv }),
                None => None,
            }
        } else {
            Some(mv)
        }
    }
}

/// The move described by a `G0`/`G1` parameter list, later parameters
/// overriding earlier ones.
pub open spec fn g1_move(params: Seq<Seq<char>>) -> Option<Move>
    decreases params.len(),
{
    if params.len() == 0 {
        Some(empty_move())
    } else {
        match g1_move(params.drop_last()) {
            Some(mv) => apply_param(mv, params.last()),
            None => None,
        }
    }
}

/// What a dispatched `G0`/`G1` does to the queue: push the move; or, with
/// no axis but a feed rate, just set the velocity; or nothing at all.
pub open spec fn g1_outcome(m: QueueModel, params: Seq<Seq<char>>) -> (
    QueueModel,
    Option<VmError>,
) {
    match g1_move(params) {
        None => (m, Some(VmError::InvalidParam)),
        Some(mv) => {
            if mv.x is None && mv.y is None && mv.z is None && mv.e is None {
                match mv.target_velocity {
                    Some(tv) => (spec_push(m, Action::SetVelocity(tv)), None),
                    None => (m, None),
                }
            } else {
                (spec_push(m, Action::Move(mv)), None)
            }
        },
    }
}

/// The command names the linear-move handler answers to.
pub open spec fn cmd_is_linear_move(c: Seq<char>) -> bool {
    c.len() == 2 && (c[0] == 'g' || c[0] == 'G') && (c[1] == '0' || c[1] == '1')
}

/// One command dispatched against the queue: a suspended machine ignores
/// it, an unknown name is an error, a linear move goes through
/// [`g1_outcome`].
pub open spec fn dispatch(
    suspended: bool,
    m: QueueModel,
    cmd: Seq<char>,
    params: Seq<Seq<char>>,
) -> (QueueModel, Option<VmError>) {
    if suspended {
        (m, None)
    } else if cmd_is_linear_move(cmd) {
        g1_outcome(m, params)
    } else {
        (m, Some(VmError::UnknownCommand))
    }
}

/// One source line: trimmed; empty lines and comment lines do nothing;
/// otherwise the text before any `;` is split into a command and its
/// parameters and dispatched.
pub open spec fn line_step(suspended: bool, m: QueueModel, line: Seq<char>) -> (
    QueueModel,
    Option<VmError>,
) {
    let t = spec_trim(line);
    if t.len() == 0 || t[0] == ';' {
        (m, None)
    } else {
        let code = t.subrange(0, find_char(t, 0, ';'));
        let toks = tokenize(code);
        if toks.len() == 0 {
            (m, None)
        } else {
            dispatch(suspended, m, toks[0], toks.drop_first())
        }
    }
}

/// A sequence of lines, stopping at the first error; a clean run ends with
/// a flush.
pub open spec fn run_lines(suspended: bool, m: QueueModel, lines: Seq<Seq<char>>) -> (
    QueueModel,
    Option<VmError>,
)
    decreases lines.len(),
{
    if lines.len() == 0 {
        (if suspended {
            m
        } else {
            spec_flush(m)
        }, None)
    } else {
        let (m1, e) = line_step(suspended, m, lines[0]);
        if e is Some {
            (m1, e)
        } else {
            run_lines(suspended, m1, lines.drop_first())
        }
    }
}

/// A whole script: its lines run in order; a suspended machine returns at
/// once.
pub open spec fn run_string(suspended: bool, m: QueueModel, s: Seq<char>) -> (
    QueueModel,
    Option<VmError>,
) {
    if suspended {
        (m, None)
    } else {
        run_lines(false, m, split_lines(s))
    }
}

/// The G-code virtual machine: a suspension flag over the action queue.
pub struct GcodeVM {
    /// Commands short-circuit while this is set.
    pub suspended: bool,
    /// The trapezoid generator the handlers feed.
    pub queue: ActionQueue,
}

impl GcodeVM {
    /// The underlying queue respects its limits.
    pub open spec fn wf(self) -> bool {
        self.queue.wf()
    }

    pub open spec fn spec_suspended(self) -> bool {
        self.suspended
    }

    /// A fresh machine over the given queue, not suspended.
    pub fn new(queue: ActionQueue) -> (vm: GcodeVM)
        ensures
            vm.queue == queue,
            !vm.spec_suspended(),
    {
        GcodeVM { suspended: false, queue }
    }

    /// Suspend the machine: subsequent commands short-circuit.
    pub fn suspend(&mut self)
        ensures
            final(self).spec_suspended(),
            final(self).queue == old(self).queue,
    {
        self.suspended = true;
    }

    /// Resume the machine.
    pub fn resume(&mut self)
        ensures
            !final(self).spec_suspended(),
            final(self).queue == old(self).queue,
    {
        self.suspended = false;
    }

    pub fn is_suspended(&self) -> (r: bool)
        ensures
            r == self.spec_suspended(),
    {
        self.suspended
    }

    /// Dispatch one command, exactly as [`dispatch`] describes.
    pub fn run_gcode(&mut self, cmd: &Vec<char>, params: &Vec<Vec<char>>) -> (r: Result<
        (),
        VmError,
    >)
        requires
            old(self).wf(),
        ensures
            final(self).wf(),
            final(self).spec_suspended() == old(self).spec_suspended(),
            ({
                let (qm, e) = dispatch(
                    old(self).spec_suspended(),
                    old(self).queue@,
                    cmd@,
                    params@.map_values(|p: Vec<char>| p@),
                );
                &&& final(self).queue@ == qm
                &&& r == (match e {
                    Some(err) => Err::<(), VmError>(err),
                    None => Ok(()),
                })
            }),
    {
        if self.suspended {
            return Ok(());
        }
        let is_g01 = cmd.len() == 2 && {
            let c0 = cmd[0];
            let c1 = cmd[1];
            (c0 == 'g' || c0 == 'G') && (c1 == '0' || c1 == '1')
        };
        if !is_g01 {
            return Err(VmError::UnknownCommand);
        }
        let mut mv = Move {
            start_velocity: None,
            target_velocity: None,
            x: None,
            y: None,
            z: None,
            e: None,
        };
        let n = params.len();
        let mut i: usize = 0;
        let ghost pviews = params@.map_values(|p: Vec<char>| p@);
        while i < n
            invariant
                i <= n == params@.len(),
                pviews == params@.map_values(|p: Vec<char>| p@),
                g1_move(pviews.take(i as int)) == Some(mv),
                self.queue == old(self).queue,
                self.suspended == old(self).suspended,
                old(self).wf(),
                !old(self).spec_suspended(),
                cmd_is_linear_move(cmd@),
            decreases n - i,
        {
            let p = &params[i];
            proof {
                assert(pviews[i as int] == params@[i as int]@);
                assert(pviews.take(i + 1).drop_last() =~= pviews.take(i as int));
                assert(pviews.take(i + 1).last() == pviews[i as int]);
            }
            if p.len() > 0 {
                let c = p[0];
                if c == 'X' || c == 'x' || c == 'Y' || c == 'y' || c == 'Z' || c == 'z' || c
                    == 'E' || c == 'e' || c == 'F' || c == 'f' {
                    let rest = subvec(p, 1, p.len());
                    match parse_number(&rest) {
                        Some(v) => {
                            if c == 'X' || c == 'x' {
                                mv.x = Some(v);
                            } else if c == 'Y' || c == 'y' {
                                mv.y = Some(v);
                            } else if c == 'Z' || c == 'z' {
                                mv.z = Some(v);
                            } else if c == 'E' || c == 'e' {
                                mv.e = Some(v);
                            } else {
                                let wide: i128 = v as i128;
                                let tvw: i128 = if wide >= 0 {
                                    wide / 60
                                } else {
                                    -((-wide) / 60)
                                };
                                mv.target_velocity = Some(tvw as i64);
                            }
                        },
                        None => {
                            proof {
                                assert(g1_move(pviews.take(i + 1)) is None);
                                lemma_g1_move_none_prefix(pviews, i + 1);
                            }
                            return Err(VmError::InvalidParam);
                        },
                    }
                }
            }
            i = i + 1;
        }
        proof {
            assert(pviews.take(n as int) =~= pviews);
        }
        if matches!(mv.x, None) && matches!(mv.y, None) && matches!(mv.z, None) && matches!(
            mv.e,
            None,
        ) {
            match mv.target_velocity {
                Some(tv) => {
                    self.queue.push(Action::SetVelocity(tv));
                },
                None => {},
            }
            return Ok(());
        }
        self.queue.push(Action::Move(mv));
        Ok(())
    }
}

impl GcodeVM {
    /// Run a whole script: each line trimmed, comment and empty lines
    /// skipped, commands dispatched in order, the queue flushed at the end
    /// of a clean run.  Exactly [`run_string`].
    pub fn run_gcode_string(&mut self, input: &str) -> (r: Result<(), VmError>)
        requires
            old(self).wf(),
        ensures
            final(self).wf(),
            final(self).spec_suspended() == old(self).spec_suspended(),
            ({
                let (qm, e) = run_string(
                    old(self).spec_suspended(),
                    old(self).queue@,
                    input@,
                );
                &&& final(self).queue@ == qm
                &&& r == (match e {
                    Some(err) => Err::<(), VmError>(err),
                    None => Ok(()),
                })
            }),
    {
        if self.suspended {
            return Ok(());
        }
        let chars = str_chars(input);
        let lines = split_lines_exec(&chars);
        let ghost lviews = lines@.map_values(|l: Vec<char>| l@);
        let ghost m0 = self.queue@;
        proof {
            assert(lviews.skip(0) =~= lviews);
        }
        let n = lines.len();
        let mut i: usize = 0;
        while i < n
            invariant
                i <= n == lines@.len(),
                lviews == lines@.map_values(|l: Vec<char>| l@),
                lviews == split_lines(chars@),
                chars@ == input@,
                old(self).wf(),
                !old(self).spec_suspended(),
                m0 == old(self).queue@,
                self.queue.wf(),
                self.suspended == false,
                run_lines(false, m0, lviews) == run_lines(
                    false,
                    self.queue@,
                    lviews.skip(i as int),
                ),
            decreases n - i,
        {
            let ghost qbefore = self.queue@;
            let ghost rem = lviews.skip(i as int);
            proof {
                assert(rem.len() > 0);
                assert(rem[0] == lviews[i as int]);
                assert(rem.drop_first() =~= lviews.skip(i + 1));
                assert(lviews[i as int] == lines@[i as int]@);
            }
            let line = &lines[i];
            let t = trim(line);
            if t.len() == 0 || t[0] == ';' {
                i = i + 1;
                continue ;
            }
            let semi = find_char_exec(&t, 0, ';');
            let code = subvec(&t, 0, semi);
            let toks = tokenize_exec(&code);
            proof {
                assert(toks@.map_values(|l: Vec<char>| l@) == tokenize(code@));
            }
            if toks.len() == 0 {
                i = i + 1;
                continue ;
            }
            let mut params: Vec<Vec<char>> = Vec::new();
            let tn = toks.len();
            let mut k: usize = 1;
            while k < tn
                invariant
                    1 <= k <= tn == toks@.len(),
                    params@.len() == k - 1,
                    forall|j: int| 0 <= j < k - 1 ==> params@[j]@ == toks@[j + 1]@,
                decreases tn - k,
            {
                let item = toks[k].clone();
                assert(item@ == toks@[k as int]@);
                params.push(item);
                k = k + 1;
            }
            proof {
                let tviews = toks@.map_values(|l: Vec<char>| l@);
                assert(params@.map_values(|p: Vec<char>| p@) =~= tviews.drop_first());
                assert(toks@[0]@ == tviews[0]);
            }
            let cmd = &toks[0];
            let res = self.run_gcode(cmd, &params);
            proof {
                let (qm1, e1) = line_step(false, qbefore, lviews[i as int]);
                assert(self.queue@ == qm1);
            }
            match res {
                Ok(()) => {
                    i = i + 1;
                },
                Err(e) => {
                    return Err(e);
                },
            }
        }
        proof {
            assert(lviews.skip(n as int) =~= Seq::<Seq<char>>::empty());
        }
        self.queue.flush();
        Ok(())
    }
}

/// The model with its G-code line counter set.
pub open spec fn with_gcode_line(m: QueueModel, n: int) -> QueueModel {
    QueueModel { st: StateModel { gcode_line: n, ..m.st }, ..m }
}

/// A command list run in order, the line counter raised by one after each
/// command that completes; the first error stops the run.
pub open spec fn run_commands(
    m: QueueModel,
    cmds: Seq<(Seq<char>, Seq<Seq<char>>)>,
    line0: int,
) -> (QueueModel, Option<VmError>)
    decreases cmds.len(),
{
    if cmds.len() == 0 {
        (m, None)
    } else {
        let (m1, e) = dispatch(false, m, cmds[0].0, cmds[0].1);
        if e is Some {
            (m1, e)
        } else {
            run_commands(with_gcode_line(m1, line0 + 1), cmds.drop_first(), line0 + 1)
        }
    }
}

/// A file run: the line counter resets to zero; a suspended machine then
/// returns at once, leaving the counter at zero and dispatching nothing;
/// otherwise the commands run.
pub open spec fn run_file(suspended: bool, m: QueueModel, cmds: Seq<(Seq<char>, Seq<Seq<char>>)>)
    -> (QueueModel, Option<VmError>) {
    if suspended {
        (with_gcode_line(m, 0), None)
    } else {
        run_commands(with_gcode_line(m, 0), cmds, 0)
    }
}

/// No push or flush touches the G-code line counter: only the virtual
/// machine moves it.
pub proof fn lemma_dispatch_keeps_gcode_line(
    suspended: bool,
    m: QueueModel,
    cmd: Seq<char>,
    params: Seq<Seq<char>>,
)
    ensures
        dispatch(suspended, m, cmd, params).0.st.gcode_line == m.st.gcode_line,
{
}

/// LAW (line counter): within one file run the counter starts at zero and
/// never decreases — after each completed command it equals the number of
/// commands completed, and it never exceeds the command count; a clean run
/// ends with the counter at the command count.
pub proof fn lemma_gcode_line_counts(
    m: QueueModel,
    cmds: Seq<(Seq<char>, Seq<Seq<char>>)>,
    line0: int,
)
    requires
        m.st.gcode_line == line0,
    ensures
        line0 <= run_commands(m, cmds, line0).0.st.gcode_line <= line0 + cmds.len(),
        run_commands(m, cmds, line0).1 is None ==> run_commands(
            m,
            cmds,
            line0,
        ).0.st.gcode_line == line0 + cmds.len(),
    decreases cmds.len(),
{
    if cmds.len() == 0 {
    } else {
        let (m1, e) = dispatch(false, m, cmds[0].0, cmds[0].1);
        lemma_dispatch_keeps_gcode_line(false, m, cmds[0].0, cmds[0].1);
        if e is Some {
        } else {
            lemma_gcode_line_counts(
                with_gcode_line(m1, line0 + 1),
                cmds.drop_first(),
                line0 + 1,
            );
        }
    }
}

impl GcodeVM {
    /// Run a parsed G-code file: reset the line counter, dispatch each
    /// command in order, raise the counter after each success, stop at the
    /// first error.  Exactly [`run_file`].
    pub fn run_gcode_file(&mut self, file: &GcodeFile) -> (r: Result<(), VmError>)
        requires
            old(self).wf(),
            file.commands@.len() <= u64::MAX,
        ensures
            final(self).wf(),
            final(self).spec_suspended() == old(self).spec_suspended(),
            ({
                let (qm, e) = run_file(
                    old(self).spec_suspended(),
                    old(self).queue@,
                    commands_views(file.commands@),
                );
                &&& final(self).queue@ == qm
                &&& r == (match e {
                    Some(err) => Err::<(), VmError>(err),
                    None => Ok(()),
                })
            }),
    {
        let ghost cviews = commands_views(file.commands@);
        self.queue.set_gcode_line(0);
        let ghost m0 = self.queue@;
        proof {
            assert(m0 =~~= with_gcode_line(old(self).queue@, 0));
            assert(cviews.skip(0) =~= cviews);
        }
        if self.suspended {
            // A suspended machine returns at once: the counter stays at
            // its reset value and nothing is dispatched.
            return Ok(());
        }
        let n = file.commands.len();
        let mut i: usize = 0;
        while i < n
            invariant
                i <= n == file.commands@.len(),
                n <= u64::MAX,
                cviews == commands_views(file.commands@),
                old(self).wf(),
                self.queue.wf(),
                !self.suspended,
                !old(self).spec_suspended(),
                self.queue@.st.gcode_line == i as int,
                run_commands(m0, cviews, 0) == run_commands(
                    self.queue@,
                    cviews.skip(i as int),
                    i as int,
                ),
                run_file(
                    old(self).spec_suspended(),
                    old(self).queue@,
                    cviews,
                ) == run_commands(m0, cviews, 0),
            decreases n - i,
        {
            let ghost rem = cviews.skip(i as int);
            proof {
                assert(rem.len() > 0);
                assert(rem[0] == cviews[i as int]);
                assert(rem.drop_first() =~= cviews.skip(i + 1));
                assert(cviews[i as int] == (
                    file.commands@[i as int].cmd@,
                    file.commands@[i as int].params_view(),
                ));
            }
            let c = &file.commands[i];
            let cmd = str_chars(c.cmd.as_str());
            let mut params: Vec<Vec<char>> = Vec::new();
            let pn = c.params.len();
            let mut k: usize = 0;
            while k < pn
                invariant
                    k <= pn == c.params@.len(),
                    params@.len() == k,
                    forall|j: int| 0 <= j < k ==> params@[j]@ == c.params@[j]@,
                decreases pn - k,
            {
                let pv = str_chars(c.params[k].as_str());
                params.push(pv);
                k = k + 1;
            }
            proof {
                assert(params@.map_values(|p: Vec<char>| p@) =~= c.params_view());
            }
            let res = self.run_gcode(&cmd, &params);
            match res {
                Ok(()) => {},
                Err(e) => {
                    return Err(e);
                },
            }
            self.queue.set_gcode_line((i as u64) + 1);
            i = i + 1;
        }
        proof {
            assert(cviews.skip(n as int) =~= Seq::<(Seq<char>, Seq<Seq<char>>)>::empty());
        }
        Ok(())
    }
}

/// Once a prefix of the parameters fails to parse, the whole list does.
proof fn lemma_g1_move_none_prefix(params: Seq<Seq<char>>, k: int)
    requires
        0 <= k <= params.len(),
        g1_move(params.take(k)) is None,
    ensures
        g1_move(params) is None,
    decreases params.len() - k,
{
    if k < params.len() {
        assert(params.take(k + 1).drop_last() =~= params.take(k));
        lemma_g1_move_none_prefix(params, k + 1);
    } else {
        assert(params.take(k) =~= params);
    }
}

} // verus!
