//! Laws of the action queue, proved over the abstract transition functions
//! [`spec_push`] and [`spec_flush`].

use vstd::prelude::*;

use crate::action::{Action, Move, PlannedMove, PrinterAction};
use crate::queue::{
    commit_positions, encode_one, resolve_component, resolve_e, resolve_move, spec_flush,
    spec_push, QueueModel,
};

verus! {

/// A sequence of intents applied to the queue, first element first.
pub open spec fn apply_actions(m: QueueModel, acts: Seq<Action>) -> QueueModel
    decreases acts.len(),
{
    if acts.len() == 0 {
        m
    } else {
        apply_actions(spec_push(m, acts[0]), acts.drop_first())
    }
}

/// The per-axis displacement a move contributes once accepted in relative
/// mode: unspecified axes move by zero, the rest are clamped to the machine
/// limit.
pub open spec fn move_disp(mv: Move) -> (int, int, int, int) {
    (
        resolve_component(false, None, mv.x),
        resolve_component(false, None, mv.y),
        resolve_component(false, None, mv.z),
        resolve_e(false, 0, mv.e),
    )
}

/// Displacement contributed by any intent: only moves displace.
pub open spec fn disp_of(a: Action) -> (int, int, int, int) {
    match a {
        Action::Move(mv) => move_disp(mv),
        _ => (0, 0, 0, 0),
    }
}

/// The displacement carried by an emitted action.
pub open spec fn emitted_disp(pa: PrinterAction) -> (int, int, int, int) {
    match pa {
        PrinterAction::KinematicMove(k) => (k.x as int, k.y as int, k.z as int, k.e as int),
        PrinterAction::ExtrusionMove(x) => (0, 0, 0, x.distance as int),
        _ => (0, 0, 0, 0),
    }
}

/// Sum of the displacements of a sequence of intents.
pub open spec fn sum_disp(acts: Seq<Action>) -> (int, int, int, int)
    decreases acts.len(),
{
    if acts.len() == 0 {
        (0, 0, 0, 0)
    } else {
        let d = disp_of(acts[0]);
        let rest = sum_disp(acts.drop_first());
        (d.0 + rest.0, d.1 + rest.1, d.2 + rest.2, d.3 + rest.3)
    }
}

/// One when a move is buffered, zero otherwise.
pub open spec fn pending_count(m: QueueModel) -> int {
    if m.first_move is Some {
        1
    } else {
        0
    }
}

/// Every element of the sequence is a move intent.
pub open spec fn all_moves(acts: Seq<Action>) -> bool {
    forall|i: int| 0 <= i < acts.len() ==> acts[i] is Move
}

/// Encoding preserves a move's displacements: the emitted action carries
/// exactly the accepted X/Y/Z/E, whatever the look-ahead hint was.
pub proof fn lemma_encode_keeps_disp(
    fm: PlannedMove,
    accel_limit: int,
    next: Option<PlannedMove>,
    scv: int,
)
    ensures
        emitted_disp(encode_one(fm, accel_limit, next, scv)) == (
            fm.x as int,
            fm.y as int,
            fm.z as int,
            fm.e as int,
        ),
{
}

/// Pushing preserves well-formedness of the model.
pub proof fn lemma_push_wf(m: QueueModel, a: Action)
    requires
        m.wf(),
    ensures
        spec_push(m, a).wf(),
        spec_push(m, a).st.absolute_position == m.st.absolute_position,
        spec_push(m, a).st.absolute_extrusion == m.st.absolute_extrusion,
        spec_push(m, a).suspended == m.suspended,
{
}

/// LAW (suspension barrier): a suspended queue emits nothing, whatever is
/// pushed.  Together with the printer's emergency stop — which suspends the
/// queue — this is the guarantee that no action becomes observable after
/// the stop returns until a restart resumes the queue.
pub proof fn lemma_suspended_queue_is_silent(m: QueueModel, acts: Seq<Action>)
    requires
        m.suspended,
    ensures
        apply_actions(m, acts) == m,
        spec_flush(m) == m,
    decreases acts.len(),
{
    if acts.len() == 0 {
    } else {
        assert(spec_push(m, acts[0]) == m);
        lemma_suspended_queue_is_silent(m, acts.drop_first());
    }
}

/// LAW (thermal deferral): while a move is buffered, a plain bed or
/// extruder temperature push emits nothing — it only joins the deferred
/// queue — so no such action can be observed before the buffered move.
pub proof fn lemma_thermal_defers_behind_pending_move(m: QueueModel, a: Action)
    requires
        !m.suspended,
        m.first_move is Some,
        a is SetBedTemp || a is SetExtruderTemp,
    ensures
        spec_push(m, a).emitted == m.emitted,
        spec_push(m, a).first_move == m.first_move,
        spec_push(m, a).deferred.len() == m.deferred.len() + 1,
{
    assert(spec_push(m, a).emitted =~= m.emitted);
}

/// LAW (emission order): whenever the buffered move is released — by a
/// successor move or by a flush — its encoding enters the emitted stream
/// first, and the deferred thermal actions follow it in arrival order.
pub proof fn lemma_pending_move_emitted_before_deferred(m: QueueModel, mv: Move)
    requires
        !m.suspended,
        m.first_move is Some,
    ensures
        ({
            let fm = m.first_move->Some_0;
            let pm = resolve_move(m.st, mv);
            let st1 = commit_positions(m.st, pm);
            spec_push(m, Action::Move(mv)).emitted == m.emitted + seq![
                encode_one(fm, m.first_move_accel, Some(pm), st1.square_corner_velocity),
            ] + m.deferred
        }),
        ({
            let fm = m.first_move->Some_0;
            spec_flush(m).emitted == m.emitted + seq![
                encode_one(fm, m.first_move_accel, None, m.st.square_corner_velocity),
            ] + m.deferred
        }),
{
}

/// LAW (wait barrier): a waiting thermal push first flushes the queue, so
/// the buffered move — and with it every move accepted earlier — stands in
/// the emitted stream before the wait, which is the last element; nothing
/// stays buffered or deferred behind it.
pub proof fn lemma_wait_flushes_before_emitting(m: QueueModel, t: i64)
    requires
        !m.suspended,
    ensures
        spec_push(m, Action::SetBedTempWait(t)).emitted == spec_flush(m).emitted + seq![
            PrinterAction::SetBedTempWait(t),
        ],
        spec_push(m, Action::SetBedTempWait(t)).first_move is None,
        spec_push(m, Action::SetBedTempWait(t)).deferred == Seq::<PrinterAction>::empty(),
        m.first_move is Some ==> spec_flush(m).emitted == m.emitted + seq![
            encode_one(
                m.first_move->Some_0,
                m.first_move_accel,
                None,
                m.st.square_corner_velocity,
            ),
        ] + m.deferred,
{
}

/// LAW (wait barrier, extruder): the extruder variant of the wait push
/// behaves the same way: flush first, then the wait, nothing left behind.
pub proof fn lemma_extruder_wait_flushes_before_emitting(m: QueueModel, index: usize, temp: i64)
    requires
        !m.suspended,
    ensures
        spec_push(m, Action::SetExtruderTempWait { index, temp }).emitted == spec_flush(
            m,
        ).emitted + seq![PrinterAction::SetExtruderTempWait { index, temp }],
        spec_push(m, Action::SetExtruderTempWait { index, temp }).first_move is None,
        spec_push(m, Action::SetExtruderTempWait { index, temp }).deferred == Seq::<
            PrinterAction,
        >::empty(),
{
}

/// Splitting a prefix sum at the front element.
proof fn lemma_sum_disp_take_succ(acts: Seq<Action>, k: int)
    requires
        0 <= k < acts.len(),
    ensures
        ({
            let d = disp_of(acts[0]);
            let rest = sum_disp(acts.drop_first().take(k));
            sum_disp(acts.take(k + 1)) == (
                d.0 + rest.0,
                d.1 + rest.1,
                d.2 + rest.2,
                d.3 + rest.3,
            )
        }),
{
    let t = acts.take(k + 1);
    assert(t.len() == k + 1);
    assert(t[0] == acts[0]);
    assert(t.drop_first() =~= acts.drop_first().take(k));
}

/// LAW (motion preserved): with relative positioning, pushing any sequence
/// of moves and then flushing emits exactly one action per accepted move,
/// in push order, and each emitted action carries the displacements of its
/// move.  Earlier emissions are untouched; a move buffered beforehand is
/// emitted first.
pub proof fn lemma_moves_emitted_in_order(m: QueueModel, acts: Seq<Action>)
    requires
        m.wf(),
        !m.suspended,
        !m.st.absolute_position,
        !m.st.absolute_extrusion,
        m.deferred == Seq::<PrinterAction>::empty(),
        all_moves(acts),
    ensures
        ({
            let f = spec_flush(apply_actions(m, acts));
            &&& f.first_move is None
            &&& f.emitted.len() == m.emitted.len() + pending_count(m) + acts.len()
            &&& forall|i: int| 0 <= i < m.emitted.len() ==> f.emitted[i] == m.emitted[i]
            &&& (m.first_move is Some ==> emitted_disp(f.emitted[m.emitted.len() as int]) == (
                m.first_move->Some_0.x as int,
                m.first_move->Some_0.y as int,
                m.first_move->Some_0.z as int,
                m.first_move->Some_0.e as int,
            ))
            &&& forall|i: int|
                0 <= i < acts.len() ==> emitted_disp(
                    f.emitted[m.emitted.len() + pending_count(m) + i],
                ) == disp_of(acts[i])
        }),
    decreases acts.len(),
{
    if acts.len() == 0 {
        let f = spec_flush(m);
        match m.first_move {
            Some(fm) => {
                lemma_encode_keeps_disp(
                    fm,
                    m.first_move_accel,
                    None,
                    m.st.square_corner_velocity,
                );
                assert(f.emitted =~= m.emitted + seq![
                    encode_one(fm, m.first_move_accel, None, m.st.square_corner_velocity),
                ]);
            },
            None => {
                assert(f.emitted =~= m.emitted);
            },
        }
    } else {
        let a0 = acts[0];
        let mv = a0->Move_0;
        let m1 = spec_push(m, a0);
        let pm0 = resolve_move(m.st, mv);
        lemma_push_wf(m, a0);
        assert(m1.deferred =~= Seq::<PrinterAction>::empty());
        assert(all_moves(acts.drop_first())) by {
            assert(forall|i: int|
                0 <= i < acts.drop_first().len() ==> acts.drop_first()[i] == acts[i + 1]);
        };
        lemma_moves_emitted_in_order(m1, acts.drop_first());
        let f = spec_flush(apply_actions(m1, acts.drop_first()));
        assert(apply_actions(m, acts) == apply_actions(m1, acts.drop_first()));
        // The freshly resolved move carries the intent's displacements.
        assert(pm0.x as int == disp_of(a0).0);
        assert(pm0.y as int == disp_of(a0).1);
        assert(pm0.z as int == disp_of(a0).2);
        assert(pm0.e as int == disp_of(a0).3);
        match m.first_move {
            Some(fm) => {
                let st1 = commit_positions(m.st, pm0);
                let enc = encode_one(fm, m.first_move_accel, Some(pm0), st1.square_corner_velocity);
                assert(m1.emitted =~= m.emitted + seq![enc]);
                lemma_encode_keeps_disp(fm, m.first_move_accel, Some(pm0), st1.square_corner_velocity);
                assert(m1.emitted.len() == m.emitted.len() + 1);
                assert(emitted_disp(f.emitted[m.emitted.len() as int]) == (
                    fm.x as int,
                    fm.y as int,
                    fm.z as int,
                    fm.e as int,
                )) by {
                    assert(f.emitted[m.emitted.len() as int] == m1.emitted[m.emitted.len() as int]);
                    assert(m1.emitted[m.emitted.len() as int] == enc);
                };
                assert(forall|i: int|
                    0 <= i < acts.len() ==> emitted_disp(
                        f.emitted[m.emitted.len() + 1 + i],
                    ) == disp_of(acts[i])) by {
                    assert(emitted_disp(f.emitted[m1.emitted.len() as int]) == (
                        pm0.x as int,
                        pm0.y as int,
                        pm0.z as int,
                        pm0.e as int,
                    ));
                    assert(forall|j: int|
                        0 <= j < acts.drop_first().len() ==> emitted_disp(
                            f.emitted[m1.emitted.len() + 1 + j],
                        ) == disp_of(acts.drop_first()[j]));
                    assert(forall|i: int|
                        1 <= i < acts.len() ==> acts.drop_first()[i - 1] == acts[i]);
                };
            },
            None => {
                assert(m1.emitted =~= m.emitted);
                assert(forall|i: int|
                    0 <= i < acts.len() ==> emitted_disp(
                        f.emitted[m.emitted.len() + 0 + i],
                    ) == disp_of(acts[i])) by {
                    assert(emitted_disp(f.emitted[m1.emitted.len() as int]) == (
                        pm0.x as int,
                        pm0.y as int,
                        pm0.z as int,
                        pm0.e as int,
                    ));
                    assert(forall|j: int|
                        0 <= j < acts.drop_first().len() ==> emitted_disp(
                            f.emitted[m1.emitted.len() + 1 + j],
                        ) == disp_of(acts.drop_first()[j]));
                    assert(forall|i: int|
                        1 <= i < acts.len() ==> acts.drop_first()[i - 1] == acts[i]);
                };
            },
        }
    }
}

/// A value fits the signed 64-bit range.
pub open spec fn in64(v: int) -> bool {
    i64::MIN <= v <= i64::MAX
}

/// LAW (positions accumulate): with relative positioning, after any
/// sequence of pushes each known axis position equals its start plus the
/// sum of the displacements of the accepted moves, as long as no running
/// sum leaves the 64-bit range; an unknown position stays unknown.
/// Thermal and velocity intents contribute nothing.
pub proof fn lemma_positions_accumulate(m: QueueModel, acts: Seq<Action>)
    requires
        m.wf(),
        !m.suspended,
        !m.st.absolute_position,
        !m.st.absolute_extrusion,
        forall|k: int|
            0 <= k <= acts.len() ==> {
                &&& (m.st.x_position is Some ==> in64(
                    m.st.x_position->Some_0 + sum_disp(#[trigger] acts.take(k)).0,
                ))
                &&& (m.st.y_position is Some ==> in64(
                    m.st.y_position->Some_0 + sum_disp(acts.take(k)).1,
                ))
                &&& (m.st.z_position is Some ==> in64(
                    m.st.z_position->Some_0 + sum_disp(acts.take(k)).2,
                ))
                &&& in64(m.st.e_position + sum_disp(acts.take(k)).3)
            },
    ensures
        ({
            let q = apply_actions(m, acts);
            &&& q.st.x_position == match m.st.x_position {
                Some(p) => Some(p + sum_disp(acts).0),
                None => None::<int>,
            }
            &&& q.st.y_position == match m.st.y_position {
                Some(p) => Some(p + sum_disp(acts).1),
                None => None::<int>,
            }
            &&& q.st.z_position == match m.st.z_position {
                Some(p) => Some(p + sum_disp(acts).2),
                None => None::<int>,
            }
            &&& q.st.e_position == m.st.e_position + sum_disp(acts).3
        }),
    decreases acts.len(),
{
    if acts.len() == 0 {
        assert(acts.take(0) =~= acts);
    } else {
        let a0 = acts[0];
        let d0 = disp_of(a0);
        let m1 = spec_push(m, a0);
        lemma_push_wf(m, a0);
        reveal_with_fuel(sum_disp, 3);
        assert(acts.take(1).drop_first() =~= Seq::<Action>::empty());
        assert(acts.take(1)[0] == a0);
        assert(sum_disp(acts.take(1)).0 == d0.0);
        assert(sum_disp(acts.take(1)).1 == d0.1);
        assert(sum_disp(acts.take(1)).2 == d0.2);
        assert(sum_disp(acts.take(1)).3 == d0.3);
        assert(acts.take(0) =~= Seq::<Action>::empty());
        // One step: the push adds exactly d0 to the known positions.
        assert(m1.st.x_position == match m.st.x_position {
            Some(p) => Some(p + d0.0),
            None => None::<int>,
        });
        assert(m1.st.y_position == match m.st.y_position {
            Some(p) => Some(p + d0.1),
            None => None::<int>,
        });
        assert(m1.st.z_position == match m.st.z_position {
            Some(p) => Some(p + d0.2),
            None => None::<int>,
        });
        assert(m1.st.e_position == m.st.e_position + d0.3);
        let rest = acts.drop_first();
        assert(forall|k: int| 0 <= k < acts.len() ==> #[trigger] acts.take(k + 1).len() == k + 1);
        assert(forall|k: int|
            0 <= k <= rest.len() ==> {
                &&& (m1.st.x_position is Some ==> in64(
                    m1.st.x_position->Some_0 + sum_disp(#[trigger] rest.take(k)).0,
                ))
                &&& (m1.st.y_position is Some ==> in64(
                    m1.st.y_position->Some_0 + sum_disp(rest.take(k)).1,
                ))
                &&& (m1.st.z_position is Some ==> in64(
                    m1.st.z_position->Some_0 + sum_disp(rest.take(k)).2,
                ))
                &&& in64(m1.st.e_position + sum_disp(rest.take(k)).3)
            }) by {
            assert forall|k: int| 0 <= k <= rest.len() implies {
                &&& (m1.st.x_position is Some ==> in64(
                    m1.st.x_position->Some_0 + sum_disp(#[trigger] rest.take(k)).0,
                ))
                &&& (m1.st.y_position is Some ==> in64(
                    m1.st.y_position->Some_0 + sum_disp(rest.take(k)).1,
                ))
                &&& (m1.st.z_position is Some ==> in64(
                    m1.st.z_position->Some_0 + sum_disp(rest.take(k)).2,
                ))
                &&& in64(m1.st.e_position + sum_disp(rest.take(k)).3)
            } by {
                lemma_sum_disp_take_succ(acts, k);
                assert(acts.take(k + 1).len() == k + 1);
            };
        };
        lemma_positions_accumulate(m1, rest);
        assert(sum_disp(acts) == (
            d0.0 + sum_disp(rest).0,
            d0.1 + sum_disp(rest).1,
            d0.2 + sum_disp(rest).2,
            d0.3 + sum_disp(rest).3,
        ));
        assert(apply_actions(m, acts) == apply_actions(m1, rest));
    }
}

} // verus!
