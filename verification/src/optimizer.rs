//! The command-stream optimizer: a unary pass that drops no-op commands, a
//! binary pass that coalesces adjacent pairs, a state-diffing pass that
//! rewrites every state change to the fields that differ from the running
//! machine state, and a driving loop that repeats the three until the
//! stream's length stabilizes.

use vstd::prelude::*;

use crate::commands::{
    cmds_view, copy_command, copy_state_change, pt_bounded, Command, CommandV, Point2,
    StateChange, StateChangeV, COLLINEAR_TOL, MAX_COORD,
};

verus! {

/// True when every motion endpoint of the command is bounded.
pub open spec fn cmd_bounded(c: CommandV) -> bool {
    match c {
        CommandV::MoveTo { end } => pt_bounded(end),
        CommandV::MoveAndExtrude { start, end, .. } => pt_bounded(start) && pt_bounded(end),
        CommandV::Arc { start, end, center, .. } => pt_bounded(start) && pt_bounded(end)
            && pt_bounded(center),
        _ => true,
    }
}

/// True when every command of the run is bounded.
pub open spec fn cmds_bounded(s: Seq<CommandV>) -> bool {
    forall|i: int| 0 <= i < s.len() ==> cmd_bounded(#[trigger] s[i])
}

/// True when `p`, `q`, `r` are collinear within the determinant tolerance.
pub open spec fn collinear_within_tol(p: Point2, q: Point2, r: Point2) -> bool {
    let det = (p.x - q.x) * (q.y - r.y) - (p.y - q.y) * (q.x - r.x);
    -(COLLINEAR_TOL as int) < det && det < COLLINEAR_TOL as int
}

/// Decides collinearity within tolerance, exactly.
pub fn collinear_exec(p: Point2, q: Point2, r: Point2) -> (res: bool)
    requires
        pt_bounded(p),
        pt_bounded(q),
        pt_bounded(r),
    ensures
        res == collinear_within_tol(p, q, r),
{
    let ax: i128 = p.x as i128 - q.x as i128;
    let ay: i128 = p.y as i128 - q.y as i128;
    let bx: i128 = q.x as i128 - r.x as i128;
    let by: i128 = q.y as i128 - r.y as i128;
    proof {
        let b: int = 2 * (MAX_COORD as int);
        assert(ax * by <= b * b && ax * by >= -(b * b) && ay * bx <= b * b && ay * bx >= -(b * b))
            by (nonlinear_arith)
            requires
                -b <= ax <= b,
                -b <= ay <= b,
                -b <= bx <= b,
                -b <= by <= b,
        ;
    }
    let det: i128 = ax * by - ay * bx;
    -(COLLINEAR_TOL as i128) < det && det < COLLINEAR_TOL as i128
}

/// True when the unary pass keeps the command: motions that go somewhere,
/// state changes that change something, delays that delay, and all layer and
/// object markers.
pub open spec fn cmd_keep(c: CommandV) -> bool {
    match c {
        CommandV::MoveTo { .. } => true,
        CommandV::MoveAndExtrude { start, end, .. } => start != end,
        CommandV::Arc { start, end, .. } => start != end,
        CommandV::LayerChange { .. } => true,
        CommandV::SetState { new_state } => !new_state.is_empty(),
        CommandV::Delay { msec } => msec != 0,
        CommandV::ChangeObject { .. } => true,
        CommandV::NoAction => false,
    }
}

/// The run after the unary pass: the commands that `cmd_keep` keeps, in
/// order.
pub open spec fn filter_keep(s: Seq<CommandV>) -> Seq<CommandV>
    decreases s.len(),
{
    if s.len() == 0 {
        Seq::empty()
    } else {
        let pre = filter_keep(s.drop_last());
        if cmd_keep(s.last()) {
            pre.push(s.last())
        } else {
            pre
        }
    }
}

/// What the binary pass makes of an adjacent pair, if anything: two travels
/// keep the second; two extrusions that meet, agree on width and thickness,
/// and are collinear within tolerance fuse; two state changes combine with
/// the second overriding.
pub open spec fn try_merge(a: CommandV, b: CommandV) -> Option<CommandV> {
    match (a, b) {
        (
            CommandV::MoveAndExtrude { start: fs, end: fe, thickness: ft, width: fw },
            CommandV::MoveAndExtrude { start: ss, end: se, thickness: st, width: sw },
        ) => {
            if fe == ss && ft == st && fw == sw && collinear_within_tol(fs, ss, se) {
                Some(CommandV::MoveAndExtrude { start: fs, end: se, thickness: ft, width: fw })
            } else {
                None
            }
        },
        (CommandV::MoveTo { .. }, CommandV::MoveTo { end }) => Some(CommandV::MoveTo { end }),
        (CommandV::SetState { new_state: f }, CommandV::SetState { new_state: s }) => Some(
            CommandV::SetState { new_state: StateChangeV::combine(f, s) },
        ),
        _ => None,
    }
}

/// The run after the binary pass: a left-to-right fold that keeps an
/// accumulator and fuses it with the next command whenever `try_merge`
/// allows.
pub open spec fn coalesce_spec(s: Seq<CommandV>) -> Seq<CommandV>
    decreases s.len(),
{
    if s.len() <= 1 {
        s
    } else {
        match try_merge(s[0], s[1]) {
            Some(m) => coalesce_spec(seq![m] + s.skip(2)),
            None => seq![s[0]] + coalesce_spec(s.skip(1)),
        }
    }
}

/// What the state-diffing pass makes of one command under running state `m`.
pub open spec fn state_step_cmd(c: CommandV, m: StateChangeV) -> CommandV {
    match c {
        CommandV::SetState { new_state } => CommandV::SetState {
            new_state: StateChangeV::diff_delta(m, new_state),
        },
        _ => c,
    }
}

/// The running machine state after one command.
pub open spec fn state_step_machine(c: CommandV, m: StateChangeV) -> StateChangeV {
    match c {
        CommandV::SetState { new_state } => StateChangeV::diff_machine(m, new_state),
        _ => m,
    }
}

/// The run after the state-diffing pass, starting from running state `m`.
pub open spec fn state_pass_spec(s: Seq<CommandV>, m: StateChangeV) -> Seq<CommandV>
    decreases s.len(),
{
    if s.len() == 0 {
        s
    } else {
        seq![state_step_cmd(s[0], m)] + state_pass_spec(s.skip(1), state_step_machine(s[0], m))
    }
}

/// The running machine state after the whole run, starting from `m`.
pub open spec fn state_run(s: Seq<CommandV>, m: StateChangeV) -> StateChangeV
    decreases s.len(),
{
    if s.len() == 0 {
        m
    } else {
        state_run(s.skip(1), state_step_machine(s[0], m))
    }
}

/// One round of the optimizer: state diffing, then the unary pass, then the
/// binary pass.
pub open spec fn opt_round(s: Seq<CommandV>) -> Seq<CommandV> {
    coalesce_spec(filter_keep(state_pass_spec(s, StateChangeV::empty())))
}

/// The optimizer's result: rounds repeated until the length stabilizes.
pub open spec fn optimize_spec(s: Seq<CommandV>) -> Seq<CommandV>
    decreases s.len(),
    via optimize_spec_decreases
{
    let t = opt_round(s);
    if t.len() == s.len() {
        t
    } else {
        optimize_spec(t)
    }
}

#[via_fn]
proof fn optimize_spec_decreases(s: Seq<CommandV>) {
    lemma_opt_round_len(s);
}

/// One optimizer round never lengthens the run.
pub proof fn lemma_opt_round_len(s: Seq<CommandV>)
    ensures
        opt_round(s).len() <= s.len(),
{
    lemma_state_pass_len(s, StateChangeV::empty());
    lemma_filter_keep_len(state_pass_spec(s, StateChangeV::empty()));
    lemma_coalesce_len(filter_keep(state_pass_spec(s, StateChangeV::empty())));
}

/// State diffing rewrites commands one for one.
pub proof fn lemma_state_pass_len(s: Seq<CommandV>, m: StateChangeV)
    ensures
        state_pass_spec(s, m).len() == s.len(),
    decreases s.len(),
{
    if s.len() != 0 {
        lemma_state_pass_len(s.skip(1), state_step_machine(s[0], m));
    }
}

/// The unary pass never lengthens the run, and keeps it whole exactly when
/// it drops nothing.
pub proof fn lemma_filter_keep_len(s: Seq<CommandV>)
    ensures
        filter_keep(s).len() <= s.len(),
        filter_keep(s).len() == s.len() ==> filter_keep(s) == s,
    decreases s.len(),
{
    if s.len() != 0 {
        lemma_filter_keep_len(s.drop_last());
        if filter_keep(s).len() == s.len() {
            assert(filter_keep(s.drop_last()) =~= s.drop_last());
            assert(filter_keep(s) =~= s);
        }
    }
}

/// The binary pass never lengthens the run, and keeps it whole exactly when
/// it fuses nothing.
pub proof fn lemma_coalesce_len(s: Seq<CommandV>)
    ensures
        coalesce_spec(s).len() <= s.len(),
        coalesce_spec(s).len() == s.len() ==> coalesce_spec(s) == s,
    decreases s.len(),
{
    if s.len() > 1 {
        match try_merge(s[0], s[1]) {
            Some(m) => {
                lemma_coalesce_len(seq![m] + s.skip(2));
            },
            None => {
                lemma_coalesce_len(s.skip(1));
                if coalesce_spec(s).len() == s.len() {
                    assert(coalesce_spec(s.skip(1)) =~= s.skip(1));
                    assert(coalesce_spec(s) =~= s);
                }
            },
        }
    }
}

/// A run the unary pass keeps whole consists of kept commands only.
pub proof fn lemma_filter_fixpoint(s: Seq<CommandV>)
    requires
        filter_keep(s) == s,
    ensures
        forall|i: int| 0 <= i < s.len() ==> cmd_keep(#[trigger] s[i]),
    decreases s.len(),
{
    if s.len() > 0 {
        lemma_filter_keep_len(s.drop_last());
        if !cmd_keep(s.last()) {
            assert(filter_keep(s).len() <= s.len() - 1);
        } else {
            assert(filter_keep(s.drop_last()).push(s.last()) == s);
            assert(filter_keep(s.drop_last()) =~= s.drop_last()) by {
                assert forall|j: int| 0 <= j < s.drop_last().len() implies filter_keep(
                    s.drop_last(),
                )[j] == s.drop_last()[j] by {
                    assert(filter_keep(s.drop_last())[j] == filter_keep(s.drop_last()).push(
                        s.last(),
                    )[j]);
                }
            }
            lemma_filter_fixpoint(s.drop_last());
            assert forall|i: int| 0 <= i < s.len() implies cmd_keep(#[trigger] s[i]) by {
                if i < s.len() - 1 {
                    assert(s[i] == s.drop_last()[i]);
                }
            }
        }
    }
}

/// A run the binary pass keeps whole has no adjacent fusible pair.
pub proof fn lemma_coalesce_fixpoint(s: Seq<CommandV>)
    requires
        coalesce_spec(s) == s,
    ensures
        forall|i: int| 0 <= i < s.len() - 1 ==> try_merge(s[i], #[trigger] s[i + 1]) is None,
    decreases s.len(),
{
    if s.len() > 1 {
        match try_merge(s[0], s[1]) {
            Some(m) => {
                lemma_coalesce_len(seq![m] + s.skip(2));
                assert(coalesce_spec(s).len() < s.len());
            },
            None => {
                assert(coalesce_spec(s) == seq![s[0]] + coalesce_spec(s.skip(1)));
                assert(coalesce_spec(s.skip(1)) =~= s.skip(1)) by {
                    assert forall|j: int| 0 <= j < s.skip(1).len() implies coalesce_spec(
                        s.skip(1),
                    )[j] == s.skip(1)[j] by {
                        assert(coalesce_spec(s.skip(1))[j] == (seq![s[0]] + coalesce_spec(
                            s.skip(1),
                        ))[j + 1]);
                    }
                    lemma_coalesce_len(s.skip(1));
                }
                lemma_coalesce_fixpoint(s.skip(1));
                assert forall|i: int| 0 <= i < s.len() - 1 implies try_merge(
                    s[i],
                    #[trigger] s[i + 1],
                ) is None by {
                    if i > 0 {
                        assert(try_merge(s.skip(1)[i - 1], s.skip(1)[i]) is None);
                    }
                }
            },
        }
    }
}

/// State diffing preserves boundedness: it only rewrites state changes.
pub proof fn lemma_state_pass_bounded(s: Seq<CommandV>, m: StateChangeV)
    requires
        cmds_bounded(s),
    ensures
        cmds_bounded(state_pass_spec(s, m)),
    decreases s.len(),
{
    if s.len() != 0 {
        let t = state_pass_spec(s, m);
        assert(cmds_bounded(s.skip(1))) by {
            assert(forall|j: int| 0 <= j < s.skip(1).len() ==> #[trigger] s.skip(1)[j] == s[j + 1]);
        }
        lemma_state_pass_bounded(s.skip(1), state_step_machine(s[0], m));
        assert forall|i: int| 0 <= i < t.len() implies cmd_bounded(#[trigger] t[i]) by {
            if i > 0 {
                assert(t[i] == state_pass_spec(s.skip(1), state_step_machine(s[0], m))[i - 1]);
            }
        }
    }
}

/// The unary pass preserves boundedness: it only drops commands.
pub proof fn lemma_filter_keep_bounded(s: Seq<CommandV>)
    requires
        cmds_bounded(s),
    ensures
        cmds_bounded(filter_keep(s)),
    decreases s.len(),
{
    if s.len() != 0 {
        assert(cmds_bounded(s.drop_last()));
        lemma_filter_keep_bounded(s.drop_last());
    }
}

/// The binary pass preserves boundedness: a fused command reuses the
/// endpoints of the pair it replaces.
pub proof fn lemma_coalesce_bounded(s: Seq<CommandV>)
    requires
        cmds_bounded(s),
    ensures
        cmds_bounded(coalesce_spec(s)),
    decreases s.len(),
{
    if s.len() > 1 {
        assert(cmds_bounded(s.skip(1))) by {
            assert(forall|j: int| 0 <= j < s.skip(1).len() ==> #[trigger] s.skip(1)[j] == s[j + 1]);
        }
        assert(cmds_bounded(s.skip(2))) by {
            assert(forall|j: int| 0 <= j < s.skip(2).len() ==> #[trigger] s.skip(2)[j] == s[j + 2]);
        }
        match try_merge(s[0], s[1]) {
            Some(m) => {
                assert(cmd_bounded(m)) by {
                    assert(cmd_bounded(s[0]));
                    assert(cmd_bounded(s[1]));
                }
                assert(cmds_bounded(seq![m] + s.skip(2))) by {
                    assert(forall|j: int|
                        1 <= j < (seq![m] + s.skip(2)).len() ==> #[trigger] (seq![m] + s.skip(2))[j]
                            == s.skip(2)[j - 1]);
                }
                lemma_coalesce_bounded(seq![m] + s.skip(2));
            },
            None => {
                lemma_coalesce_bounded(s.skip(1));
                let t = coalesce_spec(s);
                assert forall|i: int| 0 <= i < t.len() implies cmd_bounded(#[trigger] t[i]) by {
                    if i > 0 {
                        assert(t[i] == coalesce_spec(s.skip(1))[i - 1]);
                    }
                }
            },
        }
    }
}

/// Appending one command to the input of the state-diffing pass appends its
/// rewritten form to the output.
pub proof fn lemma_state_pass_snoc(s: Seq<CommandV>, c: CommandV, m: StateChangeV)
    ensures
        state_pass_spec(s.push(c), m) == state_pass_spec(s, m).push(
            state_step_cmd(c, state_run(s, m)),
        ),
        state_run(s.push(c), m) == state_step_machine(c, state_run(s, m)),
    decreases s.len(),
{
    if s.len() == 0 {
        assert(s.push(c)[0] == c);
        assert(s.push(c).skip(1) =~= Seq::<CommandV>::empty());
        assert(state_pass_spec(Seq::<CommandV>::empty(), state_step_machine(c, m))
            =~= Seq::<CommandV>::empty());
        assert(state_run(s.push(c), m) == state_run(
            Seq::<CommandV>::empty(),
            state_step_machine(c, m),
        ));
        assert(state_run(s.push(c), m) == state_step_machine(c, m));
        assert(state_run(s, m) == m);
        assert(state_pass_spec(s.push(c), m) =~= state_pass_spec(s, m).push(
            state_step_cmd(c, state_run(s, m)),
        ));
    } else {
        assert(s.push(c)[0] == s[0]);
        assert(s.push(c).skip(1) =~= s.skip(1).push(c));
        let m2 = state_step_machine(s[0], m);
        lemma_state_pass_snoc(s.skip(1), c, m2);
        assert(state_run(s.push(c), m) == state_run(s.skip(1).push(c), m2));
        assert(state_run(s, m) == state_run(s.skip(1), m2));
        assert(state_run(s.push(c), m) == state_step_machine(c, state_run(s, m)));
        assert(state_pass_spec(s.push(c), m) == seq![state_step_cmd(s[0], m)] + state_pass_spec(
            s.skip(1).push(c),
            m2,
        ));
        assert(state_pass_spec(s.push(c), m) =~= state_pass_spec(s, m).push(
            state_step_cmd(c, state_run(s, m)),
        ));
    }
}

/// Diffing a delta that was already diffed against the same running state
/// changes nothing: the delta survives and the machine lands where it did.
pub proof fn lemma_diff_twice(m: StateChangeV, o: StateChangeV)
    ensures
        StateChangeV::diff_delta(m, StateChangeV::diff_delta(m, o)) == StateChangeV::diff_delta(
            m,
            o,
        ),
        StateChangeV::diff_machine(m, StateChangeV::diff_delta(m, o)) == StateChangeV::diff_machine(
            m,
            o,
        ),
{
}

/// State diffing is idempotent.
pub proof fn lemma_state_pass_idempotent(s: Seq<CommandV>, m: StateChangeV)
    ensures
        state_pass_spec(state_pass_spec(s, m), m) == state_pass_spec(s, m),
    decreases s.len(),
{
    if s.len() != 0 {
        let c2 = state_step_cmd(s[0], m);
        let m2 = state_step_machine(s[0], m);
        let rest = state_pass_spec(s.skip(1), m2);
        let t = state_pass_spec(s, m);
        assert(t == seq![c2] + rest);
        assert(t[0] == c2);
        assert(t.skip(1) =~= rest);
        match s[0] {
            CommandV::SetState { new_state } => {
                lemma_diff_twice(m, new_state);
            },
            _ => {},
        }
        assert(state_step_cmd(c2, m) == c2);
        assert(state_step_machine(c2, m) == m2);
        lemma_state_pass_idempotent(s.skip(1), m2);
        assert(state_pass_spec(t, m) == seq![c2] + state_pass_spec(rest, m2));
        assert(state_pass_spec(t, m) =~= t);
    }
}

/// True when the delta requests nothing the running state `m` already has:
/// every field it sets differs from `m`'s value for that field.
pub open spec fn delta_nonredundant(m: StateChangeV, d: StateChangeV) -> bool {
    &&& d.extruder_temp is Some ==> d.extruder_temp != m.extruder_temp
    &&& d.bed_temp is Some ==> d.bed_temp != m.bed_temp
    &&& d.movement_speed is Some ==> d.movement_speed != m.movement_speed
    &&& d.acceleration is Some ==> d.acceleration != m.acceleration
    &&& d.fan_speed is Some ==> d.fan_speed != m.fan_speed
    &&& d.aux_fan_speed is Some ==> d.aux_fan_speed != m.aux_fan_speed
    &&& crate::commands::retract_effect(d.retract) is Some ==> crate::commands::retract_effect(
        d.retract,
    ) != crate::commands::retract_effect(m.retract)
}

/// True when no state change in the run repeats a field of the machine
/// state running immediately before it, starting from state `m`.
pub open spec fn no_redundant_state(s: Seq<CommandV>, m: StateChangeV) -> bool
    decreases s.len(),
{
    if s.len() == 0 {
        true
    } else {
        let head_ok = match s[0] {
            CommandV::SetState { new_state } => delta_nonredundant(m, new_state),
            _ => true,
        };
        head_ok && no_redundant_state(s.skip(1), state_step_machine(s[0], m))
    }
}

/// After state diffing, no state change repeats the running machine state.
pub proof fn lemma_state_pass_nonredundant(s: Seq<CommandV>, m: StateChangeV)
    ensures
        no_redundant_state(state_pass_spec(s, m), m),
    decreases s.len(),
{
    if s.len() != 0 {
        let c2 = state_step_cmd(s[0], m);
        let m2 = state_step_machine(s[0], m);
        let t = state_pass_spec(s, m);
        assert(t == seq![c2] + state_pass_spec(s.skip(1), m2));
        assert(t[0] == c2);
        assert(t.skip(1) =~= state_pass_spec(s.skip(1), m2));
        match s[0] {
            CommandV::SetState { new_state } => {
                lemma_diff_twice(m, new_state);
            },
            _ => {},
        }
        assert(state_step_machine(c2, m) == m2);
        lemma_state_pass_nonredundant(s.skip(1), m2);
    }
}

/// State diffing keeps every layer change in place.
pub proof fn lemma_state_pass_layer_count(s: Seq<CommandV>, m: StateChangeV)
    ensures
        crate::plotter::count_layer_changes(state_pass_spec(s, m))
            == crate::plotter::count_layer_changes(s),
    decreases s.len(),
{
    if s.len() != 0 {
        let t = state_pass_spec(s, m);
        assert(t[0] == state_step_cmd(s[0], m));
        assert(t.skip(1) =~= state_pass_spec(s.skip(1), state_step_machine(s[0], m)));
        lemma_state_pass_layer_count(s.skip(1), state_step_machine(s[0], m));
    }
}

/// The unary pass drops no layer change.
pub proof fn lemma_filter_layer_count(s: Seq<CommandV>)
    ensures
        crate::plotter::count_layer_changes(filter_keep(s))
            == crate::plotter::count_layer_changes(s),
    decreases s.len(),
{
    if s.len() != 0 {
        lemma_filter_layer_count(s.drop_last());
        crate::plotter::lemma_motions_push(
            s.drop_last(),
            s.last(),
            crate::commands::Point2 { x: 0, y: 0 },
        );
        crate::plotter::lemma_motions_single(s.last(), crate::commands::Point2 { x: 0, y: 0 });
        assert(s.drop_last().push(s.last()) =~= s);
        if cmd_keep(s.last()) {
            crate::plotter::lemma_motions_push(
                filter_keep(s.drop_last()),
                s.last(),
                crate::commands::Point2 { x: 0, y: 0 },
            );
        }
    }
}

/// The binary pass fuses no layer change away.
pub proof fn lemma_coalesce_layer_count(s: Seq<CommandV>)
    ensures
        crate::plotter::count_layer_changes(coalesce_spec(s))
            == crate::plotter::count_layer_changes(s),
    decreases s.len(),
{
    if s.len() > 1 {
        assert(s.skip(1)[0] == s[1]);
        assert(s.skip(1).skip(1) =~= s.skip(2));
        assert(crate::plotter::count_layer_changes(s) == (if s[0] is LayerChange {
            1int
        } else {
            0int
        }) + crate::plotter::count_layer_changes(s.skip(1)));
        assert(crate::plotter::count_layer_changes(s.skip(1)) == (if s[1] is LayerChange {
            1int
        } else {
            0int
        }) + crate::plotter::count_layer_changes(s.skip(2)));
        match try_merge(s[0], s[1]) {
            Some(m) => {
                lemma_coalesce_layer_count(seq![m] + s.skip(2));
                assert((seq![m] + s.skip(2))[0] == m);
                assert((seq![m] + s.skip(2)).skip(1) =~= s.skip(2));
                assert(crate::plotter::count_layer_changes(seq![m] + s.skip(2)) == (if m
                    is LayerChange {
                    1int
                } else {
                    0int
                }) + crate::plotter::count_layer_changes(s.skip(2)));
            },
            None => {
                lemma_coalesce_layer_count(s.skip(1));
                let t = seq![s[0]] + coalesce_spec(s.skip(1));
                assert(t[0] == s[0]);
                assert(t.skip(1) =~= coalesce_spec(s.skip(1)));
                assert(crate::plotter::count_layer_changes(t) == (if s[0] is LayerChange {
                    1int
                } else {
                    0int
                }) + crate::plotter::count_layer_changes(coalesce_spec(s.skip(1))));
            },
        }
    }
}

/// Law: the optimizer preserves the number of layer changes, so a stream
/// with one layer change per slice keeps it through optimization.
pub proof fn lemma_optimize_preserves_layer_count(s: Seq<CommandV>)
    ensures
        crate::plotter::count_layer_changes(optimize_spec(s))
            == crate::plotter::count_layer_changes(s),
    decreases s.len(),
{
    let m0 = StateChangeV::empty();
    lemma_state_pass_layer_count(s, m0);
    lemma_filter_layer_count(state_pass_spec(s, m0));
    lemma_coalesce_layer_count(filter_keep(state_pass_spec(s, m0)));
    let t = opt_round(s);
    if t.len() == s.len() {
    } else {
        lemma_opt_round_len(s);
        lemma_optimize_preserves_layer_count(t);
    }
}

/// The optimizer preserves boundedness.
pub proof fn lemma_optimize_bounded(s: Seq<CommandV>)
    requires
        cmds_bounded(s),
    ensures
        cmds_bounded(optimize_spec(s)),
    decreases s.len(),
{
    let m0 = StateChangeV::empty();
    lemma_state_pass_bounded(s, m0);
    lemma_filter_keep_bounded(state_pass_spec(s, m0));
    lemma_coalesce_bounded(filter_keep(state_pass_spec(s, m0)));
    let t = opt_round(s);
    if t.len() == s.len() {
    } else {
        lemma_opt_round_len(s);
        lemma_optimize_bounded(t);
    }
}

/// The optimizer's result is a simultaneous fixed point of all three
/// passes, and carries no redundant state change.
pub proof fn lemma_optimize_props(s: Seq<CommandV>)
    ensures
        state_pass_spec(optimize_spec(s), StateChangeV::empty()) == optimize_spec(s),
        filter_keep(optimize_spec(s)) == optimize_spec(s),
        coalesce_spec(optimize_spec(s)) == optimize_spec(s),
        no_redundant_state(optimize_spec(s), StateChangeV::empty()),
    decreases s.len(),
{
    let m0 = StateChangeV::empty();
    let st = state_pass_spec(s, m0);
    let fi = filter_keep(st);
    let t = opt_round(s);
    lemma_state_pass_len(s, m0);
    lemma_filter_keep_len(st);
    lemma_coalesce_len(fi);
    if t.len() == s.len() {
        assert(fi == st);
        assert(t == st);
        lemma_state_pass_idempotent(s, m0);
        lemma_state_pass_nonredundant(s, m0);
        assert(filter_keep(t) == t);
        assert(coalesce_spec(t) == t);
    } else {
        lemma_optimize_props(t);
    }
}

/// Law: the optimizer is idempotent.  Running it on its own output gives
/// that output back unchanged.
pub proof fn lemma_optimizer_idempotent(s: Seq<CommandV>)
    ensures
        optimize_spec(optimize_spec(s)) == optimize_spec(s),
{
    let t = optimize_spec(s);
    lemma_optimize_props(s);
    assert(opt_round(t) == t);
}

/// Law: after optimization, no state change sets a field to the value the
/// running machine state already has at that point.
pub proof fn lemma_optimizer_state_diffed(s: Seq<CommandV>)
    ensures
        no_redundant_state(optimize_spec(s), StateChangeV::empty()),
{
    lemma_optimize_props(s);
}

/// True when `a` and `b` are extrusions that meet at a shared point, agree
/// on width and thickness, and are collinear within tolerance: the fusible
/// configuration the binary pass removes.
pub open spec fn fusible_extrusion_pair(a: CommandV, b: CommandV) -> bool {
    match (a, b) {
        (
            CommandV::MoveAndExtrude { start: fs, end: fe, thickness: ft, width: fw },
            CommandV::MoveAndExtrude { start: ss, end: se, thickness: st, width: sw },
        ) => fe == ss && ft == st && fw == sw && collinear_within_tol(fs, ss, se),
        _ => false,
    }
}

/// Law: after optimization, no two adjacent extrusions share their meeting
/// point and are collinear within tolerance with equal width and thickness.
pub proof fn lemma_optimizer_no_collinear_pair(s: Seq<CommandV>)
    ensures
        forall|i: int|
            0 <= i < optimize_spec(s).len() - 1 ==> !fusible_extrusion_pair(
                optimize_spec(s)[i],
                #[trigger] optimize_spec(s)[i + 1],
            ),
{
    let t = optimize_spec(s);
    lemma_optimize_props(s);
    lemma_coalesce_fixpoint(t);
    assert forall|i: int| 0 <= i < t.len() - 1 implies !fusible_extrusion_pair(
        t[i],
        #[trigger] t[i + 1],
    ) by {
        assert(try_merge(t[i], t[i + 1]) is None);
    }
}

/// Viewing a run distributes over appending one command.
pub proof fn lemma_cmds_view_push(s: Seq<Command>, c: Command)
    ensures
        cmds_view(s.push(c)) == cmds_view(s).push(c@),
{
    assert forall|j: int| 0 <= j < s.len() + 1 implies cmds_view(s.push(c))[j] == cmds_view(
        s,
    ).push(c@)[j] by {
        if j < s.len() {
            assert(s.push(c)[j] == s[j]);
        } else {
            assert(s.push(c)[j] == c);
        }
    }
    assert(cmds_view(s.push(c)) =~= cmds_view(s).push(c@));
}

/// Decides whether the unary pass keeps the command.
fn cmd_keep_exec(c: &Command) -> (r: bool)
    ensures
        r == cmd_keep(c@),
{
    match c {
        Command::MoveTo { .. } => true,
        Command::MoveAndExtrude { start, end, .. } => *start != *end,
        Command::Arc { start, end, .. } => *start != *end,
        Command::LayerChange { .. } => true,
        Command::SetState { new_state } => !new_state.is_empty(),
        Command::Delay { msec } => *msec != 0,
        Command::ChangeObject { .. } => true,
        Command::NoAction => false,
    }
}

/// The unary pass: drop placeholders, zero-length motions, empty state
/// changes and zero delays.
pub fn unary_optimizer(cmds: &mut Vec<Command>)
    ensures
        cmds_view(final(cmds)@) == filter_keep(cmds_view(old(cmds)@)),
{
    let ghost orig: Seq<CommandV> = cmds_view(cmds@);
    let mut result: Vec<Command> = Vec::new();
    let mut i: usize = 0;
    while i < cmds.len()
        invariant
            i <= cmds@.len(),
            orig == cmds_view(cmds@),
            cmds_view(result@) == filter_keep(orig.take(i as int)),
        decreases cmds@.len() - i,
    {
        if cmd_keep_exec(&cmds[i]) {
            result.push(copy_command(&cmds[i]));
        }
        proof {
            assert(orig.take(i + 1).drop_last() =~= orig.take(i as int));
            assert(orig.take(i + 1).last() == orig[i as int]);
            assert(cmds_view(result@) =~= filter_keep(orig.take(i + 1)));
        }
        i = i + 1;
    }
    proof {
        assert(orig.take(orig.len() as int) =~= orig);
    }
    *cmds = result;
}

/// Fuses an adjacent pair if the binary pass allows, handing back the fused
/// command.
fn try_merge_exec(a: &Command, b: &Command) -> (r: Option<Command>)
    requires
        cmd_bounded(a@),
        cmd_bounded(b@),
    ensures
        (match r {
            Some(m) => try_merge(a@, b@) == Some(m@),
            None => try_merge(a@, b@) is None,
        }),
{
    match (a, b) {
        (
            Command::MoveAndExtrude { start: fs, end: fe, thickness: ft, width: fw },
            Command::MoveAndExtrude { start: ss, end: se, thickness: st, width: sw },
        ) => {
            if *fe == *ss && *ft == *st && *fw == *sw && collinear_exec(*fs, *ss, *se) {
                Some(
                    Command::MoveAndExtrude { start: *fs, end: *se, thickness: *ft, width: *fw },
                )
            } else {
                None
            }
        },
        (Command::MoveTo { .. }, Command::MoveTo { end }) => Some(Command::MoveTo { end: *end }),
        (Command::SetState { new_state: f }, Command::SetState { new_state: s }) => Some(
            Command::SetState { new_state: f.combine(s) },
        ),
        _ => None,
    }
}

/// The binary pass: one left-to-right sweep fusing adjacent pairs.
pub fn binary_optimizer(cmds: &mut Vec<Command>)
    requires
        cmds_bounded(cmds_view(old(cmds)@)),
    ensures
        cmds_view(final(cmds)@) == coalesce_spec(cmds_view(old(cmds)@)),
{
    let ghost orig: Seq<CommandV> = cmds_view(cmds@);
    if cmds.len() == 0 {
        return ;
    }
    let mut result: Vec<Command> = Vec::new();
    let mut acc: Command = copy_command(&cmds[0]);
    let mut i: usize = 1;
    proof {
        assert(acc@ == orig[0]);
        assert(cmd_bounded(orig[0]));
        assert(seq![acc@] + orig.skip(1) =~= orig);
        assert(cmds_view(result@) + coalesce_spec(seq![acc@] + orig.skip(1)) =~= coalesce_spec(
            orig,
        ));
    }
    while i < cmds.len()
        invariant
            1 <= i <= cmds@.len(),
            orig == cmds_view(cmds@),
            cmds_bounded(orig),
            cmd_bounded(acc@),
            coalesce_spec(orig) == cmds_view(result@) + coalesce_spec(
                seq![acc@] + orig.skip(i as int),
            ),
        decreases cmds@.len() - i,
    {
        let ghost rest = seq![acc@] + orig.skip(i as int);
        proof {
            assert(rest[0] == acc@);
            assert(rest[1] == orig[i as int]);
            assert(rest.len() >= 2);
        }
        let merged = try_merge_exec(&acc, &cmds[i]);
        match merged {
            Some(m) => {
                proof {
                    assert(cmd_bounded(m@)) by {
                        assert(cmd_bounded(acc@));
                        assert(cmd_bounded(orig[i as int]));
                    }
                    assert(seq![m@] + rest.skip(2) =~= seq![m@] + orig.skip(i + 1));
                    assert(coalesce_spec(rest) == coalesce_spec(seq![m@] + orig.skip(i + 1)));
                }
                acc = m;
            },
            None => {
                proof {
                    assert(rest.skip(1) =~= orig.skip(i as int));
                    assert(orig.skip(i as int) =~= seq![orig[i as int]] + orig.skip(i + 1));
                    assert(coalesce_spec(rest) == seq![acc@] + coalesce_spec(
                        seq![orig[i as int]] + orig.skip(i + 1),
                    ));
                }
                result.push(acc);
                acc = copy_command(&cmds[i]);
                proof {
                    assert(cmds_view(result@) + coalesce_spec(seq![acc@] + orig.skip(i + 1))
                        =~= coalesce_spec(orig) );
                }
            },
        }
        i = i + 1;
    }
    proof {
        assert(seq![acc@] + orig.skip(orig.len() as int) =~= seq![acc@]);
        assert(coalesce_spec(seq![acc@]) == seq![acc@]);
    }
    result.push(acc);
    proof {
        assert(cmds_view(result@) =~= coalesce_spec(orig));
    }
    *cmds = result;
}

/// The state-diffing pass: walk the run with a running machine state and
/// rewrite every state change to the fields that differ from it.
pub fn state_optomizer(cmds: &mut Vec<Command>)
    ensures
        cmds_view(final(cmds)@) == state_pass_spec(
            cmds_view(old(cmds)@),
            StateChangeV::empty(),
        ),
{
    let ghost orig: Seq<CommandV> = cmds_view(cmds@);
    let ghost m0 = StateChangeV::empty();
    let mut current: StateChange = StateChange::empty();
    let mut result: Vec<Command> = Vec::new();
    let mut i: usize = 0;
    while i < cmds.len()
        invariant
            i <= cmds@.len(),
            orig == cmds_view(cmds@),
            m0 == StateChangeV::empty(),
            current@ == state_run(orig.take(i as int), m0),
            cmds_view(result@) == state_pass_spec(orig.take(i as int), m0),
        decreases cmds@.len() - i,
    {
        let ghost mprev = current@;
        let ghost pre_result = result@;
        proof {
            lemma_state_pass_snoc(orig.take(i as int), orig[i as int], m0);
            assert(orig.take(i + 1) =~= orig.take(i as int).push(orig[i as int]));
            assert(orig[i as int] == cmds@[i as int]@);
        }
        match &cmds[i] {
            Command::SetState { new_state } => {
                let ns = copy_state_change(new_state);
                let d = current.state_diff(&ns);
                proof {
                    assert(orig[i as int] == (CommandV::SetState { new_state: ns@ }));
                    assert(state_step_cmd(orig[i as int], mprev) == (CommandV::SetState {
                        new_state: d@,
                    }));
                    assert(current@ == state_step_machine(orig[i as int], mprev));
                }
                let c = Command::SetState { new_state: d };
                proof {
                    lemma_cmds_view_push(pre_result, c);
                }
                result.push(c);
            },
            _ => {
                proof {
                    assert(state_step_cmd(orig[i as int], mprev) == orig[i as int]);
                    assert(state_step_machine(orig[i as int], mprev) == mprev);
                }
                let c = copy_command(&cmds[i]);
                proof {
                    lemma_cmds_view_push(pre_result, c);
                }
                result.push(c);
            },
        }
        proof {
            assert(cmds_view(result@) == cmds_view(pre_result).push(
                state_step_cmd(orig[i as int], mprev),
            ));
            assert(cmds_view(result@) == state_pass_spec(orig.take(i + 1), m0));
            assert(current@ == state_run(orig.take(i + 1), m0));
        }
        i = i + 1;
    }
    proof {
        assert(orig.take(orig.len() as int) =~= orig);
    }
    *cmds = result;
}

/// The optimizer: repeat state diffing, the unary pass and the binary pass
/// until the run's length stabilizes.
pub fn optimize_commands(cmds: &mut Vec<Command>)
    requires
        cmds_bounded(cmds_view(old(cmds)@)),
    ensures
        cmds_view(final(cmds)@) == optimize_spec(cmds_view(old(cmds)@)),
{
    let ghost orig: Seq<CommandV> = cmds_view(cmds@);
    let mut size: usize = cmds.len();
    let mut done: bool = false;
    while !done
        invariant
            cmds_bounded(cmds_view(cmds@)),
            optimize_spec(orig) == optimize_spec(cmds_view(cmds@)),
            size == cmds@.len(),
            done ==> cmds_view(cmds@) == optimize_spec(orig),
        decreases cmds@.len(), (if done { 0int } else { 1int }),
    {
        let ghost pre = cmds_view(cmds@);
        state_optomizer(cmds);
        proof {
            lemma_state_pass_bounded(pre, StateChangeV::empty());
            lemma_state_pass_len(pre, StateChangeV::empty());
        }
        unary_optimizer(cmds);
        proof {
            lemma_filter_keep_bounded(state_pass_spec(pre, StateChangeV::empty()));
            lemma_filter_keep_len(state_pass_spec(pre, StateChangeV::empty()));
        }
        binary_optimizer(cmds);
        proof {
            lemma_coalesce_bounded(filter_keep(state_pass_spec(pre, StateChangeV::empty())));
            lemma_coalesce_len(filter_keep(state_pass_spec(pre, StateChangeV::empty())));
            assert(cmds_view(cmds@) == opt_round(pre));
        }
        if cmds.len() == size {
            done = true;
            proof {
                assert(optimize_spec(pre) == opt_round(pre));
                lemma_optimizer_idempotent(pre);
            }
        } else {
            size = cmds.len();
            proof {
                assert(optimize_spec(pre) == optimize_spec(opt_round(pre)));
            }
        }
    }
}

} // verus!
