//! The action queue: a one-move look-ahead trapezoid generator.
//!
//! Abstract [`Move`] intents are resolved to relative, concrete,
//! limit-clamped [`PlannedMove`]s.  One move is buffered; when its successor
//! arrives, the buffered move is encoded with the successor as the
//! look-ahead hint and emitted, then any deferred thermal actions follow in
//! first-in-first-out order, and the successor takes its place.  A flush
//! encodes the buffered move with no hint, so its exit velocity is zero.
//!
//! The whole behaviour is captured by the transition functions
//! [`spec_push`] and [`spec_flush`] over the abstract [`QueueModel`]; every
//! executable operation is proved to implement them exactly.

use vstd::prelude::*;

use crate::action::{
    Action, ActionState, ExtrusionMove, KinematicMove, Move, PlannedMove, PrinterAction,
    StateModel, MAX_RATE, MIN_VELOCITY,
};
use crate::fixed::{isqrt, sqrt_floor};

verus! {

/// Smaller of two numbers.
pub open spec fn min2(a: int, b: int) -> int {
    if a <= b {
        a
    } else {
        b
    }
}

/// `v` forced into `[lo, hi]`.
pub open spec fn clamp(v: int, lo: int, hi: int) -> int {
    if v < lo {
        lo
    } else if v > hi {
        hi
    } else {
        v
    }
}

/// `v` forced into the signed 64-bit range, as a saturating addition does.
pub open spec fn sat64(v: int) -> int {
    clamp(v, i64::MIN as int, i64::MAX as int)
}

/// Abstract state of the action queue.
#[verifier::ext_equal]
pub struct QueueModel {
    pub st: StateModel,
    pub suspended: bool,
    /// The buffered move, already relative and concrete.
    pub first_move: Option<PlannedMove>,
    /// The maximum acceleration frozen when the buffered move was stored.
    pub first_move_accel: int,
    /// Non-motion actions that arrived while a move was buffered.
    pub deferred: Seq<PrinterAction>,
    /// Everything emitted towards the physical printer, in order.
    pub emitted: Seq<PrinterAction>,
}

impl QueueModel {
    /// Machine limits hold and the buffer is consistent.
    pub open spec fn wf(self) -> bool {
        &&& self.st.wf()
        &&& 0 <= self.first_move_accel <= MAX_RATE
        &&& match self.first_move {
            Some(fm) => fm.wf(),
            None => true,
        }
        &&& self.first_move is None ==> self.deferred == Seq::<PrinterAction>::empty()
    }
}

/// One axis of a move made relative and clamped: an unspecified axis moves
/// by zero; in absolute mode the target is reduced by the current position,
/// and an unknown position voids the axis.
pub open spec fn resolve_component(absolute: bool, pos: Option<int>, c: Option<i64>) -> int {
    match c {
        None => 0,
        Some(v) => if absolute {
            match pos {
                Some(p) => clamp(v - p, -MAX_RATE as int, MAX_RATE as int),
                None => 0,
            }
        } else {
            clamp(v as int, -MAX_RATE as int, MAX_RATE as int)
        },
    }
}

/// The extruder axis made relative and clamped.
pub open spec fn resolve_e(absolute: bool, pos: int, c: Option<i64>) -> int {
    match c {
        None => 0,
        Some(v) => if absolute {
            clamp(v - pos, -MAX_RATE as int, MAX_RATE as int)
        } else {
            clamp(v as int, -MAX_RATE as int, MAX_RATE as int)
        },
    }
}

/// A pushed move resolved against the current state: target velocity
/// defaulted to the maximum and clamped, axes made relative, unspecified
/// fields zeroed.
pub open spec fn resolve_move(st: StateModel, m: Move) -> PlannedMove {
    let tv0 = match m.target_velocity {
        None => st.max_velocity,
        Some(v) => v as int,
    };
    let sv0 = match m.start_velocity {
        None => 0,
        Some(v) => v as int,
    };
    PlannedMove {
        start_velocity: clamp(sv0, 0, MAX_RATE as int) as i64,
        target_velocity: clamp(tv0, MIN_VELOCITY as int, st.max_velocity) as i64,
        x: resolve_component(st.absolute_position, st.x_position, m.x) as i64,
        y: resolve_component(st.absolute_position, st.y_position, m.y) as i64,
        z: resolve_component(st.absolute_position, st.z_position, m.z) as i64,
        e: resolve_e(st.absolute_extrusion, st.e_position, m.e) as i64,
    }
}

/// Positions advanced by an accepted move's displacements.  Unknown
/// positions stay unknown; additions saturate at the 64-bit limits.
pub open spec fn commit_positions(st: StateModel, pm: PlannedMove) -> StateModel {
    StateModel {
        x_position: match st.x_position {
            Some(p) => Some(sat64(p + pm.x)),
            None => None,
        },
        y_position: match st.y_position {
            Some(p) => Some(sat64(p + pm.y)),
            None => None,
        },
        z_position: match st.z_position {
            Some(p) => Some(sat64(p + pm.z)),
            None => None,
        },
        e_position: sat64(st.e_position + pm.e),
        ..st
    }
}

/// Spatial length of a move, in micro-millimetres (floor of the Euclidean
/// norm).
pub open spec fn move_distance(pm: PlannedMove) -> int {
    sqrt_floor((pm.x * pm.x + pm.y * pm.y + pm.z * pm.z) as nat) as int
}

/// Largest exit velocity the junction towards `next` allows.  The scale
/// runs monotonically with the cosine of the turn angle: a collinear
/// successor allows the full target velocity, a right angle only the square
/// corner velocity, and any sharper turn is treated like a right angle.
pub open spec fn junction_velocity(fm: PlannedMove, next: PlannedMove, scv: int) -> int {
    let dot = fm.x * next.x + fm.y * next.y + fm.z * next.z;
    if dot <= 0 {
        scv
    } else {
        let d1 = move_distance(fm);
        let d2 = move_distance(next);
        if d1 == 0 || d2 == 0 {
            scv
        } else {
            let cos_mil = min2(1000, dot * 1000 / (d1 * d2));
            if fm.target_velocity <= scv {
                fm.target_velocity as int
            } else {
                scv + (fm.target_velocity - scv) * cos_mil / 1000
            }
        }
    }
}

/// Exit velocity chosen for an encoded move: the junction bound (zero
/// without a successor), capped by the target velocity and by what the
/// frozen acceleration can reach over the move's length.
pub open spec fn exit_velocity(
    fm: PlannedMove,
    accel_limit: int,
    next: Option<PlannedMove>,
    scv: int,
) -> int {
    let cap = match next {
        None => 0,
        Some(n) => junction_velocity(fm, n, scv),
    };
    let reach = sqrt_floor(
        (fm.start_velocity * fm.start_velocity + 2 * accel_limit * move_distance(fm)) as nat,
    ) as int;
    min2(fm.target_velocity as int, min2(cap, reach))
}

/// A buffered move encoded as one emitted action.  A move without spatial
/// displacement but with extrusion becomes a pure flow; everything else
/// becomes a kinematic segment whose acceleration takes it from its start
/// velocity to the chosen exit velocity over its length.
pub open spec fn encode_one(
    fm: PlannedMove,
    accel_limit: int,
    next: Option<PlannedMove>,
    scv: int,
) -> PrinterAction {
    if fm.x == 0 && fm.y == 0 && fm.z == 0 && fm.e != 0 {
        PrinterAction::ExtrusionMove(
            ExtrusionMove { flow: fm.target_velocity, distance: fm.e },
        )
    } else {
        let s = move_distance(fm);
        let u = fm.start_velocity as int;
        let vexit = exit_velocity(fm, accel_limit, next, scv);
        let a = if s == 0 {
            0
        } else if vexit >= u {
            (vexit * vexit - u * u) / (2 * s)
        } else {
            -((u * u - vexit * vexit) / (2 * s))
        };
        PrinterAction::KinematicMove(
            KinematicMove {
                start_velocity: fm.start_velocity,
                acceleration: clamp(a, -MAX_RATE as int, MAX_RATE as int) as i64,
                x: fm.x,
                y: fm.y,
                z: fm.z,
                e: fm.e,
            },
        )
    }
}

/// The queue flushed: the buffered move is encoded with no look-ahead hint
/// and emitted, then the deferred actions drain in order.  A suspended
/// queue ignores the call.
pub open spec fn spec_flush(m: QueueModel) -> QueueModel {
    if m.suspended {
        m
    } else {
        match m.first_move {
            Some(fm) => QueueModel {
                first_move: None,
                deferred: Seq::<PrinterAction>::empty(),
                emitted: m.emitted + seq![
                    encode_one(fm, m.first_move_accel, None, m.st.square_corner_velocity),
                ] + m.deferred,
                ..m
            },
            None => QueueModel {
                deferred: Seq::<PrinterAction>::empty(),
                emitted: m.emitted + m.deferred,
                ..m
            },
        }
    }
}

/// One push.  A suspended queue ignores it.  A move is resolved, its
/// displacements are committed to the positions, and it either takes the
/// empty buffer (freezing the current maximum acceleration) or releases the
/// buffered move — encoded with the newcomer as hint — followed by the
/// deferred actions, and then takes the buffer itself.  Non-wait thermal
/// actions defer while a move is buffered and emit at once otherwise; wait
/// thermal actions flush first, then emit.  `SetVelocity` only stores the
/// clamped maximum.
pub open spec fn spec_push(m: QueueModel, a: Action) -> QueueModel {
    if m.suspended {
        m
    } else {
        match a {
            Action::Move(mv) => {
                let pm = resolve_move(m.st, mv);
                let st1 = commit_positions(m.st, pm);
                match m.first_move {
                    Some(fm) => QueueModel {
                        st: st1,
                        first_move: Some(pm),
                        first_move_accel: st1.max_accel,
                        deferred: Seq::<PrinterAction>::empty(),
                        emitted: m.emitted + seq![
                            encode_one(
                                fm,
                                m.first_move_accel,
                                Some(pm),
                                st1.square_corner_velocity,
                            ),
                        ] + m.deferred,
                        ..m
                    },
                    None => QueueModel {
                        st: st1,
                        first_move: Some(pm),
                        first_move_accel: st1.max_accel,
                        ..m
                    },
                }
            },
            Action::SetVelocity(v) => QueueModel {
                st: StateModel {
                    max_velocity: clamp(v as int, MIN_VELOCITY as int, MAX_RATE as int),
                    ..m.st
                },
                ..m
            },
            Action::SetBedTemp(t) => if m.first_move is Some {
                QueueModel { deferred: m.deferred + seq![PrinterAction::SetBedTemp(t)], ..m }
            } else {
                QueueModel { emitted: m.emitted + seq![PrinterAction::SetBedTemp(t)], ..m }
            },
            Action::SetBedTempWait(t) => {
                let f = spec_flush(m);
                QueueModel { emitted: f.emitted + seq![PrinterAction::SetBedTempWait(t)], ..f }
            },
            Action::SetExtruderTemp { index, temp } => if m.first_move is Some {
                QueueModel {
                    deferred: m.deferred + seq![
                        PrinterAction::SetExtruderTemp { index, temp },
                    ],
                    ..m
                }
            } else {
                QueueModel {
                    emitted: m.emitted + seq![PrinterAction::SetExtruderTemp { index, temp }],
                    ..m
                }
            },
            Action::SetExtruderTempWait { index, temp } => {
                let f = spec_flush(m);
                QueueModel {
                    emitted: f.emitted + seq![
                        PrinterAction::SetExtruderTempWait { index, temp },
                    ],
                    ..f
                }
            },
        }
    }
}

/// The trapezoid generator.  Emitted actions gather in an internal buffer
/// standing for the event channel; the event loop drains it with
/// [`ActionQueue::take_emitted`].
pub struct ActionQueue {
    /// Shared kinematic state.
    pub state: ActionState,
    suspended: bool,
    first_move: Option<PlannedMove>,
    first_move_accel: i64,
    deferred: Vec<PrinterAction>,
    emitted: Vec<PrinterAction>,
}

impl View for ActionQueue {
    type V = QueueModel;

    closed spec fn view(&self) -> QueueModel {
        QueueModel {
            st: self.state@,
            suspended: self.suspended,
            first_move: self.first_move,
            first_move_accel: self.first_move_accel as int,
            deferred: self.deferred@,
            emitted: self.emitted@,
        }
    }
}

/// Products of bounded factors are bounded.
proof fn lemma_mul_le(a: int, b: int, bound_a: int, bound_b: int)
    requires
        0 <= a <= bound_a,
        0 <= b <= bound_b,
    ensures
        0 <= a * b <= bound_a * bound_b,
{
    assert(a * b <= bound_a * bound_b) by (nonlinear_arith)
        requires
            0 <= a <= bound_a,
            0 <= b <= bound_b,
    ;
    assert(0 <= a * b) by (nonlinear_arith)
        requires
            0 <= a,
            0 <= b,
    ;
}

/// Squares of values bounded in magnitude are bounded.
proof fn lemma_sq_le(a: int, bound: int)
    requires
        -bound <= a <= bound,
        0 <= bound,
    ensures
        0 <= a * a <= bound * bound,
{
    assert(0 <= a * a <= bound * bound) by (nonlinear_arith)
        requires
            -bound <= a <= bound,
            0 <= bound,
    ;
}

/// Dividing a smaller number gives a smaller quotient.
proof fn lemma_div_le(a: int, b: int, d: int)
    requires
        0 <= a <= b,
        0 < d,
    ensures
        0 <= a / d <= b / d,
{
    assert(0 <= a / d <= b / d) by (nonlinear_arith)
        requires
            0 <= a <= b,
            0 < d,
    ;
}

/// `v` forced into `[lo, hi]`.
fn clamp_i64(v: i64, lo: i64, hi: i64) -> (r: i64)
    requires
        lo <= hi,
    ensures
        r as int == clamp(v as int, lo as int, hi as int),
{
    if v < lo {
        lo
    } else if v > hi {
        hi
    } else {
        v
    }
}

/// `v` forced into `[lo, hi]`.
fn clamp_i128(v: i128, lo: i128, hi: i128) -> (r: i128)
    requires
        lo <= hi,
    ensures
        r as int == clamp(v as int, lo as int, hi as int),
{
    if v < lo {
        lo
    } else if v > hi {
        hi
    } else {
        v
    }
}

/// Saturating 64-bit addition.
fn sat_add64(a: i64, b: i64) -> (r: i64)
    ensures
        r as int == sat64(a + b),
{
    let w: i128 = a as i128 + b as i128;
    let c = clamp_i128(w, i64::MIN as i128, i64::MAX as i128);
    c as i64
}

/// One axis of a move made relative and clamped.
fn resolve_component_exec(absolute: bool, pos: Option<i64>, c: Option<i64>) -> (r: i64)
    ensures
        r as int == resolve_component(
            absolute,
            match pos {
                Some(p) => Some(p as int),
                None => None,
            },
            c,
        ),
        -MAX_RATE <= r <= MAX_RATE,
{
    match c {
        None => 0,
        Some(v) => {
            if absolute {
                match pos {
                    Some(p) => {
                        let d: i128 = v as i128 - p as i128;
                        let cl = clamp_i128(d, -(MAX_RATE as i128), MAX_RATE as i128);
                        cl as i64
                    },
                    None => 0,
                }
            } else {
                clamp_i64(v, -MAX_RATE, MAX_RATE)
            }
        },
    }
}

/// The extruder axis made relative and clamped.
fn resolve_e_exec(absolute: bool, pos: i64, c: Option<i64>) -> (r: i64)
    ensures
        r as int == resolve_e(absolute, pos as int, c),
        -MAX_RATE <= r <= MAX_RATE,
{
    match c {
        None => 0,
        Some(v) => {
            if absolute {
                let d: i128 = v as i128 - pos as i128;
                let cl = clamp_i128(d, -(MAX_RATE as i128), MAX_RATE as i128);
                cl as i64
            } else {
                clamp_i64(v, -MAX_RATE, MAX_RATE)
            }
        },
    }
}

/// Spatial length of an accepted move.
fn move_distance_exec(fm: &PlannedMove) -> (d: u128)
    requires
        fm.wf(),
    ensures
        d as int == move_distance(*fm),
        d <= 2_000_000_000_000,
{
    proof {
        lemma_sq_le(fm.x as int, MAX_RATE as int);
        lemma_sq_le(fm.y as int, MAX_RATE as int);
        lemma_sq_le(fm.z as int, MAX_RATE as int);
    }
    let xx: i128 = fm.x as i128 * fm.x as i128;
    let yy: i128 = fm.y as i128 * fm.y as i128;
    let zz: i128 = fm.z as i128 * fm.z as i128;
    let sum: i128 = xx + yy + zz;
    let d = isqrt(sum as u128);
    proof {
        let b: int = 2_000_000_000_000;
        if d > b {
            assert(b * b < d * d) by (nonlinear_arith)
                requires
                    d > b,
                    b > 0,
            ;
        }
    }
    d
}

/// Exit velocity bound imposed by the junction towards `next`.
fn junction_velocity_exec(fm: &PlannedMove, next: &PlannedMove, scv: i64) -> (r: u128)
    requires
        fm.wf(),
        next.wf(),
        0 <= scv <= MAX_RATE,
    ensures
        r as int == junction_velocity(*fm, *next, scv as int),
        r <= MAX_RATE as u128,
{
    proof {
        lemma_sq_le(fm.x as int, MAX_RATE as int);
        lemma_sq_le(fm.y as int, MAX_RATE as int);
        lemma_sq_le(fm.z as int, MAX_RATE as int);
        lemma_mul_le(
            (if fm.x >= 0 {
                fm.x as int
            } else {
                -fm.x as int
            }),
            (if next.x >= 0 {
                next.x as int
            } else {
                -next.x as int
            }),
            MAX_RATE as int,
            MAX_RATE as int,
        );
    }
    proof {
        let m: int = MAX_RATE as int;
        assert(-(m * m) <= fm.x * next.x <= m * m) by (nonlinear_arith)
            requires
                -m <= fm.x <= m,
                -m <= next.x <= m,
                m > 0,
        ;
        assert(-(m * m) <= fm.y * next.y <= m * m) by (nonlinear_arith)
            requires
                -m <= fm.y <= m,
                -m <= next.y <= m,
                m > 0,
        ;
        assert(-(m * m) <= fm.z * next.z <= m * m) by (nonlinear_arith)
            requires
                -m <= fm.z <= m,
                -m <= next.z <= m,
                m > 0,
        ;
    }
    let px: i128 = fm.x as i128 * next.x as i128;
    let py: i128 = fm.y as i128 * next.y as i128;
    let pz: i128 = fm.z as i128 * next.z as i128;
    let dot: i128 = px + py + pz;
    if dot <= 0 {
        return scv as u128;
    }
    let d1 = move_distance_exec(fm);
    let d2 = move_distance_exec(next);
    if d1 == 0 || d2 == 0 {
        return scv as u128;
    }
    proof {
        lemma_mul_le(dot as int, 1000, 0x7fffffff_ffffffff_ffffffff as int, 1000);
        lemma_mul_le(d1 as int, d2 as int, 2_000_000_000_000, 2_000_000_000_000);
    }
    assert(d1 * d2 > 0) by (nonlinear_arith)
        requires
            d1 > 0,
            d2 > 0,
    ;
    let cos0: u128 = (dot as u128) * 1000 / (d1 * d2);
    let cos_mil: u128 = if cos0 > 1000 {
        1000
    } else {
        cos0
    };
    assert(cos_mil as int == min2(1000, dot * 1000 / (d1 as int * d2 as int)));
    if fm.target_velocity <= scv {
        fm.target_velocity as u128
    } else {
        assert(fm.target_velocity - scv <= MAX_RATE);
        proof {
            lemma_mul_le(
                fm.target_velocity - scv,
                cos_mil as int,
                MAX_RATE as int,
                1000,
            );
        }
        let extra: u128 = (fm.target_velocity - scv) as u128 * cos_mil / 1000;
        proof {
            let t: int = fm.target_velocity as int;
            let sc: int = scv as int;
            lemma_mul_le(t - sc, cos_mil as int, MAX_RATE as int, 1000);
            assert(0 <= (t - sc) * cos_mil <= (t - sc) * 1000) by (nonlinear_arith)
                requires
                    0 <= cos_mil <= 1000,
                    0 <= t - sc,
            ;
            lemma_div_le((t - sc) * cos_mil, (t - sc) * 1000, 1000);
            assert((t - sc) * 1000 / 1000 == t - sc) by (nonlinear_arith);
        }
        scv as u128 + extra
    }
}

/// A buffered move encoded as the one action to emit.
fn encode_move(
    fm: PlannedMove,
    accel_limit: i64,
    next: Option<PlannedMove>,
    scv: i64,
) -> (r: PrinterAction)
    requires
        fm.wf(),
        match next {
            Some(n) => n.wf(),
            None => true,
        },
        0 <= accel_limit <= MAX_RATE,
        0 <= scv <= MAX_RATE,
    ensures
        r == encode_one(fm, accel_limit as int, next, scv as int),
{
    if fm.x == 0 && fm.y == 0 && fm.z == 0 && fm.e != 0 {
        return PrinterAction::ExtrusionMove(
            ExtrusionMove { flow: fm.target_velocity, distance: fm.e },
        );
    }
    let s: u128 = move_distance_exec(&fm);
    let u: u128 = fm.start_velocity as u128;
    proof {
        lemma_mul_le(u as int, u as int, MAX_RATE as int, MAX_RATE as int);
        lemma_mul_le(2 * accel_limit as int, s as int, 2 * MAX_RATE as int, 2_000_000_000_000);
    }
    let reach_sq: u128 = u * u + 2 * (accel_limit as u128) * s;
    let reach: u128 = isqrt(reach_sq);
    let cap: u128 = match next {
        None => 0u128,
        Some(n) => junction_velocity_exec(&fm, &n, scv),
    };
    let tv: u128 = fm.target_velocity as u128;
    let vexit: u128 = if tv <= cap && tv <= reach {
        tv
    } else if cap <= reach {
        cap
    } else {
        reach
    };
    assert(vexit as int == exit_velocity(fm, accel_limit as int, next, scv as int));
    assert(vexit <= tv);
    proof {
        lemma_mul_le(vexit as int, vexit as int, MAX_RATE as int, MAX_RATE as int);
    }
    let a: i128 = if s == 0 {
        0
    } else if vexit >= u {
        proof {
            assert(u * u <= vexit * vexit) by (nonlinear_arith)
                requires
                    0 <= u <= vexit,
            ;
        }
        let q: u128 = (vexit * vexit - u * u) / (2 * s);
        proof {
            lemma_div_le(
                (vexit * vexit - u * u) as int,
                MAX_RATE as int * MAX_RATE as int,
                2 * s as int,
            );
        }
        q as i128
    } else {
        proof {
            assert(vexit * vexit <= u * u) by (nonlinear_arith)
                requires
                    0 <= vexit <= u,
            ;
        }
        let q: u128 = (u * u - vexit * vexit) / (2 * s);
        proof {
            lemma_div_le(
                (u * u - vexit * vexit) as int,
                MAX_RATE as int * MAX_RATE as int,
                2 * s as int,
            );
        }
        -(q as i128)
    };
    let acc = clamp_i128(a, -(MAX_RATE as i128), MAX_RATE as i128);
    PrinterAction::KinematicMove(
        KinematicMove {
            start_velocity: fm.start_velocity,
            acceleration: acc as i64,
            x: fm.x,
            y: fm.y,
            z: fm.z,
            e: fm.e,
        },
    )
}

impl ActionQueue {
    /// Machine limits hold and the buffer is consistent.
    pub open spec fn wf(self) -> bool {
        self@.wf()
    }

    /// A fresh queue around the given state: not suspended, empty buffer,
    /// nothing deferred, nothing emitted.
    pub fn new(state: ActionState) -> (q: ActionQueue)
        requires
            state@.wf(),
        ensures
            q@.st == state@,
            !q@.suspended,
            q@.first_move is None,
            q@.deferred == Seq::<PrinterAction>::empty(),
            q@.emitted == Seq::<PrinterAction>::empty(),
            q.wf(),
    {
        ActionQueue {
            state,
            suspended: false,
            first_move: None,
            first_move_accel: 0,
            deferred: Vec::new(),
            emitted: Vec::new(),
        }
    }

    /// Suspend the queue: every later push or flush is ignored until
    /// [`ActionQueue::resume`].
    pub fn suspend(&mut self)
        ensures
            final(self)@ == (QueueModel { suspended: true, ..old(self)@ }),
    {
        self.suspended = true;
    }

    /// Resume the queue.
    pub fn resume(&mut self)
        ensures
            final(self)@ == (QueueModel { suspended: false, ..old(self)@ }),
    {
        self.suspended = false;
    }

    pub fn is_suspended(&self) -> (r: bool)
        ensures
            r == self@.suspended,
    {
        self.suspended
    }

    /// Whether a file-based print job is marked running.
    pub fn is_gcode_running(&self) -> (r: bool)
        ensures
            r == self@.st.gcode_running,
    {
        self.state.gcode_running
    }

    /// Set the G-code line counter; only the virtual machine calls this.
    pub fn set_gcode_line(&mut self, n: u64)
        ensures
            final(self)@ == (QueueModel {
                st: StateModel { gcode_line: n as int, ..old(self)@.st },
                ..old(self)@
            }),
    {
        self.state.gcode_line = n;
        proof {
            assert(self@ =~~= (QueueModel {
                st: StateModel { gcode_line: n as int, ..old(self)@.st },
                ..old(self)@
            }));
        }
    }

    /// Mark whether a file-based print job is running; only the printer's
    /// event loop calls this.
    pub fn set_gcode_running(&mut self, running: bool)
        ensures
            final(self)@ == (QueueModel {
                st: StateModel { gcode_running: running, ..old(self)@.st },
                ..old(self)@
            }),
    {
        self.state.gcode_running = running;
        proof {
            assert(self@ =~~= (QueueModel {
                st: StateModel { gcode_running: running, ..old(self)@.st },
                ..old(self)@
            }));
        }
    }

    /// Drop the buffered move and the deferred actions.
    pub fn clear(&mut self)
        ensures
            final(self)@ == (QueueModel {
                first_move: None,
                deferred: Seq::<PrinterAction>::empty(),
                ..old(self)@
            }),
    {
        self.first_move = None;
        self.deferred = Vec::new();
        proof {
            assert(self@ =~~= (QueueModel {
                first_move: None,
                deferred: Seq::<PrinterAction>::empty(),
                ..old(self)@
            }));
        }
    }

    /// Hand out everything emitted so far, in emission order, leaving the
    /// buffer empty.  This models the consumer side of the event channel.
    pub fn take_emitted(&mut self) -> (out: Vec<PrinterAction>)
        ensures
            out@ == old(self)@.emitted,
            final(self)@ == (QueueModel { emitted: Seq::<PrinterAction>::empty(), ..old(self)@ }),
    {
        let mut out: Vec<PrinterAction> = Vec::new();
        std::mem::swap(&mut out, &mut self.emitted);
        proof {
            assert(self@ =~~= (QueueModel {
                emitted: Seq::<PrinterAction>::empty(),
                ..old(self)@
            }));
        }
        out
    }

    /// Append every deferred action to the emitted buffer, oldest first,
    /// leaving the deferred queue empty.
    fn drain_deferred(&mut self)
        ensures
            final(self)@ == (QueueModel {
                deferred: Seq::<PrinterAction>::empty(),
                emitted: old(self)@.emitted + old(self)@.deferred,
                ..old(self)@
            }),
    {
        let mut d: Vec<PrinterAction> = Vec::new();
        std::mem::swap(&mut d, &mut self.deferred);
        let n = d.len();
        for i in 0..n
            invariant
                n == d.len(),
                self.deferred@ == Seq::<PrinterAction>::empty(),
                self.emitted@ == old(self).emitted@ + d@.subrange(0, i as int),
                self.state == old(self).state,
                self.suspended == old(self).suspended,
                self.first_move == old(self).first_move,
                self.first_move_accel == old(self).first_move_accel,
        {
            let a = d[i];
            self.emitted.push(a);
            proof {
                assert(self.emitted@ =~= old(self).emitted@ + d@.subrange(0, i + 1));
            }
        }
        proof {
            assert(d@.subrange(0, n as int) =~= d@);
            assert(self@ =~~= (QueueModel {
                deferred: Seq::<PrinterAction>::empty(),
                emitted: old(self)@.emitted + old(self)@.deferred,
                ..old(self)@
            }));
        }
    }

    /// Encode and emit the buffered move, if any, then drain the deferred
    /// actions.  A suspended queue ignores the call.
    pub fn flush(&mut self)
        requires
            old(self).wf(),
        ensures
            final(self)@ == spec_flush(old(self)@),
            final(self).wf(),
    {
        if self.suspended {
            return;
        }
        let fm_opt = self.first_move;
        self.first_move = None;
        match fm_opt {
            Some(fm) => {
                let enc = encode_move(
                    fm,
                    self.first_move_accel,
                    None,
                    self.state.square_corner_velocity,
                );
                self.emitted.push(enc);
            },
            None => {},
        }
        self.drain_deferred();
        proof {
            assert(self@ =~~= spec_flush(old(self)@));
        }
    }

    /// Resolve and accept one intent, as [`spec_push`] describes.
    pub fn push(&mut self, action: Action)
        requires
            old(self).wf(),
        ensures
            final(self)@ == spec_push(old(self)@, action),
            final(self).wf(),
    {
        if self.suspended {
            return;
        }
        match action {
            Action::Move(mv) => {
                let tv0: i64 = match mv.target_velocity {
                    None => self.state.max_velocity,
                    Some(v) => v,
                };
                let sv0: i64 = match mv.start_velocity {
                    None => 0,
                    Some(v) => v,
                };
                let pm = PlannedMove {
                    start_velocity: clamp_i64(sv0, 0, MAX_RATE),
                    target_velocity: clamp_i64(tv0, MIN_VELOCITY, self.state.max_velocity),
                    x: resolve_component_exec(
                        self.state.absolute_position,
                        self.state.x_position,
                        mv.x,
                    ),
                    y: resolve_component_exec(
                        self.state.absolute_position,
                        self.state.y_position,
                        mv.y,
                    ),
                    z: resolve_component_exec(
                        self.state.absolute_position,
                        self.state.z_position,
                        mv.z,
                    ),
                    e: resolve_e_exec(
                        self.state.absolute_extrusion,
                        self.state.e_position,
                        mv.e,
                    ),
                };
                assert(pm == resolve_move(old(self)@.st, mv));
                assert(pm.wf());
                match self.state.x_position {
                    Some(p) => {
                        self.state.x_position = Some(sat_add64(p, pm.x));
                    },
                    None => {},
                }
                match self.state.y_position {
                    Some(p) => {
                        self.state.y_position = Some(sat_add64(p, pm.y));
                    },
                    None => {},
                }
                match self.state.z_position {
                    Some(p) => {
                        self.state.z_position = Some(sat_add64(p, pm.z));
                    },
                    None => {},
                }
                self.state.e_position = sat_add64(self.state.e_position, pm.e);
                assert(self.state@ =~~= commit_positions(old(self)@.st, pm));
                match self.first_move {
                    Some(fm) => {
                        let enc = encode_move(
                            fm,
                            self.first_move_accel,
                            Some(pm),
                            self.state.square_corner_velocity,
                        );
                        self.emitted.push(enc);
                        self.drain_deferred();
                        self.first_move = Some(pm);
                        self.first_move_accel = self.state.max_accel;
                    },
                    None => {
                        self.first_move = Some(pm);
                        self.first_move_accel = self.state.max_accel;
                    },
                }
            },
            Action::SetVelocity(v) => {
                self.state.max_velocity = clamp_i64(v, MIN_VELOCITY, MAX_RATE);
            },
            Action::SetBedTemp(t) => {
                if self.first_move.is_some() {
                    self.deferred.push(PrinterAction::SetBedTemp(t));
                } else {
                    self.emitted.push(PrinterAction::SetBedTemp(t));
                }
            },
            Action::SetBedTempWait(t) => {
                self.flush();
                self.emitted.push(PrinterAction::SetBedTempWait(t));
            },
            Action::SetExtruderTemp { index, temp } => {
                if self.first_move.is_some() {
                    self.deferred.push(PrinterAction::SetExtruderTemp { index, temp });
                } else {
                    self.emitted.push(PrinterAction::SetExtruderTemp { index, temp });
                }
            },
            Action::SetExtruderTempWait { index, temp } => {
                self.flush();
                self.emitted.push(PrinterAction::SetExtruderTempWait { index, temp });
            },
        }
        proof {
            assert(self@ =~~= spec_push(old(self)@, action));
        }
    }
}

} // verus!
