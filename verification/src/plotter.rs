//! The plotter: turns ordered move chains into the flat command stream,
//! layer by layer, object by object, with travel moves between chains.

use vstd::prelude::*;

use crate::commands::{
    cmds_view, Command, CommandV, Move, MoveChain, MoveType, Point2, RetractionType, StateChange,
};
use crate::settings::{LayerSettings, Settings};
use crate::slicing::{Object, Slice};

verus! {

/// True when the motions of the run chain: every extrusion and arc starts
/// where the previous motion ended and actually goes somewhere.
pub open spec fn motions_ok(s: Seq<CommandV>, pos: Point2) -> bool
    decreases s.len(),
{
    if s.len() == 0 {
        true
    } else {
        match s[0] {
            CommandV::MoveTo { end } => motions_ok(s.skip(1), end),
            CommandV::MoveAndExtrude { start, end, .. } => start == pos && start != end
                && motions_ok(s.skip(1), end),
            CommandV::Arc { start, end, .. } => start == pos && start != end && motions_ok(
                s.skip(1),
                end,
            ),
            _ => motions_ok(s.skip(1), pos),
        }
    }
}

/// The position after the run's motions, starting from `pos`.
pub open spec fn end_pos(s: Seq<CommandV>, pos: Point2) -> Point2
    decreases s.len(),
{
    if s.len() == 0 {
        pos
    } else {
        match s[0] {
            CommandV::MoveTo { end } => end_pos(s.skip(1), end),
            CommandV::MoveAndExtrude { end, .. } => end_pos(s.skip(1), end),
            CommandV::Arc { end, .. } => end_pos(s.skip(1), end),
            _ => end_pos(s.skip(1), pos),
        }
    }
}

/// The number of layer changes in the run.
pub open spec fn count_layer_changes(s: Seq<CommandV>) -> int
    decreases s.len(),
{
    if s.len() == 0 {
        0
    } else {
        (if s[0] is LayerChange {
            1int
        } else {
            0int
        }) + count_layer_changes(s.skip(1))
    }
}

/// Chained runs chain: appending a run that chains from where the first
/// ends gives a chained whole.
pub proof fn lemma_motions_append(a: Seq<CommandV>, b: Seq<CommandV>, pos: Point2)
    ensures
        motions_ok(a, pos) && motions_ok(b, end_pos(a, pos)) ==> motions_ok(a + b, pos),
        end_pos(a + b, pos) == end_pos(b, end_pos(a, pos)),
        count_layer_changes(a + b) == count_layer_changes(a) + count_layer_changes(b),
    decreases a.len(),
{
    if a.len() == 0 {
        assert(a + b =~= b);
    } else {
        assert((a + b)[0] == a[0]);
        assert((a + b).skip(1) =~= a.skip(1) + b);
        match a[0] {
            CommandV::MoveTo { end } => {
                lemma_motions_append(a.skip(1), b, end);
            },
            CommandV::MoveAndExtrude { end, .. } => {
                lemma_motions_append(a.skip(1), b, end);
            },
            CommandV::Arc { end, .. } => {
                lemma_motions_append(a.skip(1), b, end);
            },
            _ => {
                lemma_motions_append(a.skip(1), b, pos);
            },
        }
    }
}

/// A single command appended to a chained run keeps it chained when it
/// starts at the run's end.
pub proof fn lemma_motions_push(s: Seq<CommandV>, c: CommandV, pos: Point2)
    ensures
        motions_ok(s.push(c), pos) == (motions_ok(s, pos) && motions_ok(
            seq![c],
            end_pos(s, pos),
        )),
        end_pos(s.push(c), pos) == end_pos(seq![c], end_pos(s, pos)),
        count_layer_changes(s.push(c)) == count_layer_changes(s) + count_layer_changes(seq![c]),
{
    assert(s.push(c) =~= s + seq![c]);
    lemma_motions_append(s, seq![c], pos);
    if motions_ok(s.push(c), pos) {
        lemma_motions_ok_prefix(s, seq![c], pos);
    }
}

/// A chained whole has a chained prefix.
pub proof fn lemma_motions_ok_prefix(a: Seq<CommandV>, b: Seq<CommandV>, pos: Point2)
    requires
        motions_ok(a + b, pos),
    ensures
        motions_ok(a, pos),
        motions_ok(b, end_pos(a, pos)),
    decreases a.len(),
{
    if a.len() == 0 {
        assert(a + b =~= b);
    } else {
        assert((a + b)[0] == a[0]);
        assert((a + b).skip(1) =~= a.skip(1) + b);
        match a[0] {
            CommandV::MoveTo { end } => {
                lemma_motions_ok_prefix(a.skip(1), b, end);
            },
            CommandV::MoveAndExtrude { end, .. } => {
                lemma_motions_ok_prefix(a.skip(1), b, end);
            },
            CommandV::Arc { end, .. } => {
                lemma_motions_ok_prefix(a.skip(1), b, end);
            },
            _ => {
                lemma_motions_ok_prefix(a.skip(1), b, pos);
            },
        }
    }
}

/// What one command does to chaining, position and the layer count.
pub proof fn lemma_motions_single(c: CommandV, pos: Point2)
    ensures
        motions_ok(seq![c], pos) == (match c {
            CommandV::MoveAndExtrude { start, end, .. } => start == pos && start != end,
            CommandV::Arc { start, end, .. } => start == pos && start != end,
            _ => true,
        }),
        end_pos(seq![c], pos) == (match c {
            CommandV::MoveTo { end } => end,
            CommandV::MoveAndExtrude { end, .. } => end,
            CommandV::Arc { end, .. } => end,
            _ => pos,
        }),
        count_layer_changes(seq![c]) == (if c is LayerChange {
            1int
        } else {
            0int
        }),
{
    reveal_with_fuel(motions_ok, 2);
    reveal_with_fuel(end_pos, 2);
    reveal_with_fuel(count_layer_changes, 2);
    assert(seq![c].skip(1) =~= Seq::<CommandV>::empty());
}

/// True when a travel from `prev` to `start` is long enough to retract
/// over: its squared length, with coordinates clamped into the
/// exact-arithmetic range, strictly exceeds the squared minimum retract
/// distance.
pub open spec fn travel_needs_retract(prev: Point2, start: Point2, min_d: i64) -> bool {
    let a = Point2 {
        x: crate::calculation::clamp_coord(prev.x as int) as i64,
        y: crate::calculation::clamp_coord(prev.y as int) as i64,
    };
    let b = Point2 {
        x: crate::calculation::clamp_coord(start.x as int) as i64,
        y: crate::calculation::clamp_coord(start.y as int) as i64,
    };
    crate::order::sqdist(a, b) > min_d * min_d
}

/// Decides whether a travel is long enough to retract over, exactly.
fn needs_retract(prev: Point2, start: Point2, min_d: i64) -> (r: bool)
    ensures
        r == travel_needs_retract(prev, start, min_d),
{
    let ax = crate::calculation::clamp_coord_exec(prev.x);
    let ay = crate::calculation::clamp_coord_exec(prev.y);
    let bx = crate::calculation::clamp_coord_exec(start.x);
    let by = crate::calculation::clamp_coord_exec(start.y);
    let dx: i128 = bx as i128 - ax as i128;
    let dy: i128 = by as i128 - ay as i128;
    proof {
        assert(dx * dx >= 0 && dx * dx <= 19342813113834066795298816 && dy * dy >= 0 && dy * dy
            <= 19342813113834066795298816) by (nonlinear_arith)
            requires
                -2199023255552 <= dx <= 2199023255552,
                -2199023255552 <= dy <= 2199023255552,
        ;
        assert((min_d as i128) * (min_d as i128) >= 0 && (min_d as i128) * (min_d as i128)
            <= 85070591730234615865843651857942052864) by (nonlinear_arith)
            requires
                -9223372036854775808 <= min_d as i128 <= 9223372036854775807,
        ;
    }
    dx * dx + dy * dy > (min_d as i128) * (min_d as i128)
}

/// The state preamble of a travel between chains: the travel speed, and
/// retraction exactly when the jump is longer than the minimum retract
/// distance.
fn travel_preamble(settings: &LayerSettings, retract: bool) -> (r: StateChange)
    ensures
        r@.movement_speed == Some(settings.speed.value_for_spec(MoveType::Travel)),
        r@.retract == (if retract {
            crate::commands::RetractionTypeV::Retract
        } else {
            crate::commands::RetractionTypeV::NoRetract
        }),
        r@.extruder_temp is None && r@.bed_temp is None && r@.acceleration is None
            && r@.fan_speed is None && r@.aux_fan_speed is None,
{
    StateChange {
        extruder_temp: None,
        bed_temp: None,
        movement_speed: Some(settings.speed.get_value_for_movement_type(&MoveType::Travel)),
        acceleration: None,
        fan_speed: None,
        aux_fan_speed: None,
        retract: if retract {
            RetractionType::Retract
        } else {
            RetractionType::NoRetract
        },
    }
}

/// The state preamble of a movement type: its configured speed, and
/// retraction for travels, unretraction otherwise.
pub open spec fn preamble_of(
    speeds: crate::settings::MovementParameter,
    move_type: MoveType,
) -> crate::commands::StateChangeV {
    crate::commands::StateChangeV {
        extruder_temp: None,
        bed_temp: None,
        movement_speed: Some(speeds.value_for_spec(move_type)),
        acceleration: None,
        fan_speed: None,
        aux_fan_speed: None,
        retract: if move_type is Travel {
            crate::commands::RetractionTypeV::Retract
        } else {
            crate::commands::RetractionTypeV::Unretract
        },
    }
}

/// What compiling a chain emits, walked move by move: a state preamble at
/// every change of movement type (the head starts in travel state), a
/// plain motion for travels, and an extrusion from the current position
/// for everything else, skipping extrusions that would not move.
pub open spec fn chain_walk(
    moves: Seq<Move>,
    cur_type: MoveType,
    loc: Point2,
    speeds: crate::settings::MovementParameter,
    thickness: i64,
    acc: Seq<CommandV>,
) -> Seq<CommandV>
    decreases moves.len(),
{
    if moves.len() == 0 {
        acc
    } else {
        let m = moves[0];
        let acc1 = if m.move_type == cur_type {
            acc
        } else {
            acc.push(CommandV::SetState { new_state: preamble_of(speeds, m.move_type) })
        };
        if m.move_type is Travel {
            chain_walk(
                moves.skip(1),
                m.move_type,
                m.end,
                speeds,
                thickness,
                acc1.push(CommandV::MoveTo { end: m.end }),
            )
        } else if m.end == loc {
            chain_walk(moves.skip(1), m.move_type, loc, speeds, thickness, acc1)
        } else {
            chain_walk(
                moves.skip(1),
                m.move_type,
                m.end,
                speeds,
                thickness,
                acc1.push(
                    CommandV::MoveAndExtrude {
                        start: loc,
                        end: m.end,
                        thickness,
                        width: m.width,
                    },
                ),
            )
        }
    }
}

/// The commands a chain compiles to.
pub open spec fn chain_commands(
    c: crate::order::MoveChainV,
    speeds: crate::settings::MovementParameter,
    thickness: i64,
) -> Seq<CommandV> {
    chain_walk(c.moves, MoveType::Travel, c.start_point, speeds, thickness, Seq::empty())
}

/// The state change that selects a movement type's speed and retraction.
fn preamble_state(settings: &LayerSettings, move_type: MoveType) -> (r: StateChange)
    ensures
        r@ == preamble_of(settings.speed, move_type),
{
    StateChange {
        extruder_temp: None,
        bed_temp: None,
        movement_speed: Some(settings.speed.get_value_for_movement_type(&move_type)),
        acceleration: None,
        fan_speed: None,
        aux_fan_speed: None,
        retract: if matches!(move_type, MoveType::Travel) {
            RetractionType::Retract
        } else {
            RetractionType::Unretract
        },
    }
}

impl MoveChain {
    /// Compiles the chain into commands, exactly as `chain_commands`
    /// states: a state preamble whenever the movement type changes (the
    /// head starts in travel state), travels as plain motions, everything
    /// else as extrusions from the current position; zero-length
    /// extrusions are dropped, so the motions chain and every extrusion
    /// has strictly positive length.
    pub fn create_commands(&self, settings: &LayerSettings, thickness: i64) -> (r: Vec<Command>)
        ensures
            cmds_view(r@) == chain_commands(self@, settings.speed, thickness),
            motions_ok(cmds_view(r@), self.start_point),
            end_pos(cmds_view(r@), self.start_point) == (if self.moves@.len() == 0 {
                self.start_point
            } else {
                self.moves@.last().end
            }),
            count_layer_changes(cmds_view(r@)) == 0,
    {
        let mut cmds: Vec<Command> = Vec::new();
        let mut current_type: MoveType = MoveType::Travel;
        let mut current_loc: Point2 = self.start_point;
        let mut i: usize = 0;
        proof {
            assert(self.moves@.skip(0) =~= self.moves@);
            assert(cmds_view(cmds@) =~= Seq::<CommandV>::empty());
        }
        while i < self.moves.len()
            invariant
                i <= self.moves@.len(),
                motions_ok(cmds_view(cmds@), self.start_point),
                end_pos(cmds_view(cmds@), self.start_point) == current_loc,
                count_layer_changes(cmds_view(cmds@)) == 0,
                current_loc == (if i == 0 {
                    self.start_point
                } else {
                    self.moves@[i as int - 1].end
                }),
                chain_commands(self@, settings.speed, thickness) == chain_walk(
                    self.moves@.skip(i as int),
                    current_type,
                    current_loc,
                    settings.speed,
                    thickness,
                    cmds_view(cmds@),
                ),
            decreases self.moves@.len() - i,
        {
            proof {
                assert(self.moves@.skip(i as int)[0] == self.moves@[i as int]);
                assert(self.moves@.skip(i as int).skip(1) =~= self.moves@.skip(i + 1));
            }
            let m = self.moves[i];
            let type_changed: bool = !(current_type == m.move_type);
            if type_changed {
                let ghost pre = cmds_view(cmds@);
                let c = Command::SetState {
                    new_state: preamble_state(settings, m.move_type),
                };
                proof {
                    crate::optimizer::lemma_cmds_view_push(cmds@, c);
                    lemma_motions_push(pre, c@, self.start_point);
                    lemma_motions_single(c@, end_pos(pre, self.start_point));
                }
                cmds.push(c);
                current_type = m.move_type;
                proof {
                    assert(cmds_view(cmds@) == pre.push(c@));
                }
            }
            if matches!(m.move_type, MoveType::Travel) {
                let ghost pre = cmds_view(cmds@);
                let c = Command::MoveTo { end: m.end };
                proof {
                    crate::optimizer::lemma_cmds_view_push(cmds@, c);
                    lemma_motions_push(pre, c@, self.start_point);
                    lemma_motions_single(c@, end_pos(pre, self.start_point));
                }
                cmds.push(c);
                current_loc = m.end;
                proof {
                    assert(cmds_view(cmds@) == pre.push(c@));
                }
            } else {
                if !(m.end == current_loc) {
                    let ghost pre = cmds_view(cmds@);
                    let c = Command::MoveAndExtrude {
                        start: current_loc,
                        end: m.end,
                        thickness,
                        width: m.width,
                    };
                    proof {
                        crate::optimizer::lemma_cmds_view_push(cmds@, c);
                        lemma_motions_push(pre, c@, self.start_point);
                        lemma_motions_single(c@, end_pos(pre, self.start_point));
                    }
                    cmds.push(c);
                    current_loc = m.end;
                    proof {
                        assert(cmds_view(cmds@) == pre.push(c@));
                    }
                }
            }
            i = i + 1;
        }
        proof {
            assert(self.moves@.skip(self.moves@.len() as int) =~= Seq::<Move>::empty());
        }
        cmds
    }
}

/// Viewing a run distributes over concatenation.
pub proof fn lemma_cmds_view_concat(a: Seq<Command>, b: Seq<Command>)
    ensures
        cmds_view(a + b) == cmds_view(a) + cmds_view(b),
{
    assert forall|j: int| 0 <= j < a.len() + b.len() implies cmds_view(a + b)[j] == (cmds_view(a)
        + cmds_view(b))[j] by {
        if j < a.len() {
            assert((a + b)[j] == a[j]);
        } else {
            assert((a + b)[j] == b[j - a.len()]);
        }
    }
    assert(cmds_view(a + b) =~= cmds_view(a) + cmds_view(b));
}

/// The total number of slices across the objects.
pub open spec fn total_slices(objects: Seq<Object>) -> int
    decreases objects.len(),
{
    if objects.len() == 0 {
        0
    } else {
        total_slices(objects.drop_last()) + objects.last().layers@.len()
    }
}

/// The number of slices with layer index below `k` among the first `j`
/// objects.
pub open spec fn count_upto(objects: Seq<Object>, k: int, j: int) -> int
    decreases j,
{
    if j <= 0 {
        0
    } else {
        count_upto(objects, k, j - 1) + (if k <= objects[j - 1].layers@.len() {
            k
        } else {
            objects[j - 1].layers@.len() as int
        })
    }
}

/// The number of the first `j` objects that have a slice at layer `k`.
pub open spec fn emitted_at(objects: Seq<Object>, k: int, j: int) -> int
    decreases j,
{
    if j <= 0 {
        0
    } else {
        emitted_at(objects, k, j - 1) + (if k < objects[j - 1].layers@.len() {
            1int
        } else {
            0int
        })
    }
}

/// No slices lie below layer zero.
proof fn lemma_count_zero(objects: Seq<Object>, j: int)
    ensures
        count_upto(objects, 0, j) == 0,
    decreases j,
{
    if j > 0 {
        lemma_count_zero(objects, j - 1);
    }
}

/// Raising the layer bound by one adds the slices emitted at that layer.
proof fn lemma_count_step(objects: Seq<Object>, k: int, j: int)
    requires
        k >= 0,
    ensures
        count_upto(objects, k + 1, j) == count_upto(objects, k, j) + emitted_at(objects, k, j),
    decreases j,
{
    if j > 0 {
        lemma_count_step(objects, k, j - 1);
    }
}

/// Once the layer bound passes every object, the count is the total.
proof fn lemma_count_total(objects: Seq<Object>, k: int, j: int)
    requires
        forall|m: int| 0 <= m < j ==> (#[trigger] objects[m]).layers@.len() <= k,
        j <= objects.len(),
    ensures
        count_upto(objects, k, j) == (if j == objects.len() {
            total_slices(objects)
        } else {
            count_upto(objects, k, j)
        }),
        j == objects.len() ==> count_upto(objects, k, j) == total_slices(objects),
    decreases objects.len(),
{
    if j == objects.len() && objects.len() > 0 {
        lemma_count_total(objects.drop_last(), k, j - 1);
        lemma_count_upto_prefix(objects, k, j - 1);
    }
}

/// The count over the first `j` objects ignores the last object.
proof fn lemma_count_upto_prefix(objects: Seq<Object>, k: int, j: int)
    requires
        j < objects.len(),
    ensures
        count_upto(objects, k, j) == count_upto(objects.drop_last(), k, j),
    decreases j,
{
    if j > 0 {
        lemma_count_upto_prefix(objects, k, j - 1);
        assert(objects.drop_last()[j - 1] == objects[j - 1]);
    }
}

/// A run whose first motion is a travel chains from anywhere.
pub open spec fn motions_ok_anywhere(s: Seq<CommandV>) -> bool {
    forall|p: Point2| #[trigger] motions_ok(s, p)
}

/// Builds the commands of one slice: its layer change, an object marker
/// when the object switches, and each chain preceded by a travel to its
/// start.
#[verifier::rlimit(100)]
fn build_slice_block(
    slice: &Slice,
    layer_settings: &LayerSettings,
    j: usize,
    k: usize,
    thickness: i64,
    emit_marker: bool,
    start_pos: Point2,
    min_retract: i64,
) -> (r: (Vec<Command>, Point2))
    ensures
        count_layer_changes(cmds_view(r.0@)) == 1,
        motions_ok_anywhere(cmds_view(r.0@)),
        r.0@.len() > 0 && cmds_view(r.0@)[0] == (CommandV::LayerChange {
            z: slice.top_height,
            index: k,
        }),
{
    let mut pos: Point2 = start_pos;
    let mut block: Vec<Command> = Vec::new();
    block.push(Command::LayerChange { z: slice.top_height, index: k });
    if emit_marker {
        block.push(Command::ChangeObject { object: j });
    }
    proof {
        reveal_with_fuel(motions_ok, 3);
        reveal_with_fuel(count_layer_changes, 3);
        if emit_marker {
            assert(cmds_view(block@) =~= seq![
                (Command::LayerChange { z: slice.top_height, index: k })@,
                (Command::ChangeObject { object: j })@,
            ]);
            assert(cmds_view(block@).skip(1).skip(1) =~= Seq::<CommandV>::empty());
        } else {
            assert(cmds_view(block@) =~= seq![
                (Command::LayerChange { z: slice.top_height, index: k })@,
            ]);
            assert(cmds_view(block@).skip(1) =~= Seq::<CommandV>::empty());
        }
        assert forall|p: Point2| #[trigger] motions_ok(cmds_view(block@), p) by {
            reveal_with_fuel(motions_ok, 3);
        }
        assert(count_layer_changes(cmds_view(block@)) == 1);
    }
    let mut c: usize = 0;
    while c < slice.chains.len()
        invariant
            c <= slice.chains@.len(),
            count_layer_changes(cmds_view(block@)) == 1,
            motions_ok_anywhere(cmds_view(block@)),
            block@.len() > 0 && cmds_view(block@)[0] == (CommandV::LayerChange {
                z: slice.top_height,
                index: k,
            }),
        decreases slice.chains@.len() - c,
    {
        let chain = &slice.chains[c];
        let retract = needs_retract(pos, chain.start_point, min_retract);
        pos = crate::order::chain_stop_exec(chain);
        let ghost pre_block_vec = block@;
        let ghost pre_block = cmds_view(block@);
        let mut sub: Vec<Command> = Vec::new();
        sub.push(
            Command::SetState {
                new_state: travel_preamble(layer_settings, retract),
            },
        );
        sub.push(Command::MoveTo { end: chain.start_point });
        let ghost head_vec = sub@;
        let ghost sub_head = cmds_view(sub@);
        let mut chain_cmds = chain.create_commands(layer_settings, thickness);
        let ghost chain_vec = chain_cmds@;
        let ghost chain_view = cmds_view(chain_cmds@);
        sub.append(&mut chain_cmds);
        let ghost sub_view = cmds_view(sub@);
        proof {
            assert(sub@ == head_vec + chain_vec);
            lemma_cmds_view_concat(head_vec, chain_vec);
            assert(sub_view == sub_head + chain_view);
            assert(sub_head.len() == 2);
            assert(sub_head[0] == head_vec[0]@ && head_vec[0] is SetState);
            assert(sub_head[1] == (CommandV::MoveTo { end: chain.start_point }));
            assert(sub_head.skip(1).skip(1) =~= Seq::<CommandV>::empty());
            assert(sub_head.skip(1)[0] == sub_head[1]);
            assert forall|p: Point2| #[trigger] motions_ok(sub_view, p) by {
                reveal_with_fuel(motions_ok, 3);
                reveal_with_fuel(end_pos, 3);
                assert(end_pos(sub_head, p) == chain.start_point);
                assert(motions_ok(sub_head, p));
                lemma_motions_append(sub_head, chain_view, p);
            }
            assert(count_layer_changes(sub_view) == 0) by {
                reveal_with_fuel(count_layer_changes, 3);
                lemma_motions_append(sub_head, chain_view, Point2 { x: 0, y: 0 });
            }
        }
        block.append(&mut sub);
        proof {
            assert(block@ == pre_block_vec + (head_vec + chain_vec));
            lemma_cmds_view_concat(pre_block_vec, head_vec + chain_vec);
            assert(cmds_view(block@) == pre_block + sub_view);
            assert forall|p: Point2| #[trigger] motions_ok(cmds_view(block@), p) by {
                lemma_motions_append(pre_block, sub_view, p);
                assert(motions_ok(pre_block, p));
                assert(motions_ok(sub_view, end_pos(pre_block, p)));
            }
            lemma_motions_append(pre_block, sub_view, Point2 { x: 0, y: 0 });
            assert(cmds_view(block@)[0] == pre_block[0]);
        }
        c = c + 1;
    }
    (block, pos)
}

/// Compiles all objects' ordered chains into one flat command stream:
/// layer by layer, object by object, each slice opening with its layer
/// change and, when the printed object switches, an object marker; each
/// chain is preceded by a travel to its start.  The stream opens with a
/// layer change, its motions chain from the origin, and it holds exactly
/// one layer change per slice.
#[verifier::rlimit(100)]
pub fn convert_objects_into_moves(objects: &Vec<Object>, settings: &Settings) -> (r: Vec<Command>)
    requires
        forall|m: int|
            0 <= m < objects@.len() ==> crate::slicing::slices_ordered(
                (#[trigger] objects@[m]).layers@,
            ),
    ensures
        count_layer_changes(cmds_view(r@)) == total_slices(objects@),
        motions_ok(cmds_view(r@), Point2 { x: 0, y: 0 }),
        r@.len() > 0 ==> cmds_view(r@)[0] is LayerChange,
        objects@.len() == 0 ==> r@.len() == 0,
{
    let mut max_layers: usize = 0;
    let mut m: usize = 0;
    while m < objects.len()
        invariant
            m <= objects@.len(),
            forall|q: int| 0 <= q < m ==> (#[trigger] objects@[q]).layers@.len() <= max_layers,
        decreases objects@.len() - m,
    {
        if objects[m].layers.len() > max_layers {
            max_layers = objects[m].layers.len();
        }
        m = m + 1;
    }
    let mut cmds: Vec<Command> = Vec::new();
    let mut last_obj: Option<usize> = None;
    let mut head_pos = Point2 { x: 0, y: 0 };
    proof {
        lemma_count_zero(objects@, objects@.len() as int);
    }
    let mut k: usize = 0;
    while k < max_layers
        invariant
            k <= max_layers,
            forall|q: int|
                0 <= q < objects@.len() ==> (#[trigger] objects@[q]).layers@.len() <= max_layers,
            forall|q: int|
                0 <= q < objects@.len() ==> crate::slicing::slices_ordered(
                    (#[trigger] objects@[q]).layers@,
                ),
            count_layer_changes(cmds_view(cmds@)) == count_upto(
                objects@,
                k as int,
                objects@.len() as int,
            ),
            motions_ok(cmds_view(cmds@), Point2 { x: 0, y: 0 }),
            cmds@.len() > 0 ==> cmds_view(cmds@)[0] is LayerChange,
            objects@.len() == 0 ==> cmds@.len() == 0,
        decreases max_layers - k,
    {
        let mut j: usize = 0;
        while j < objects.len()
            invariant
                j <= objects@.len(),
                k < max_layers,
                forall|q: int|
                    0 <= q < objects@.len() ==> crate::slicing::slices_ordered(
                        (#[trigger] objects@[q]).layers@,
                    ),
                count_layer_changes(cmds_view(cmds@)) == count_upto(
                    objects@,
                    k as int,
                    objects@.len() as int,
                ) + emitted_at(objects@, k as int, j as int),
                motions_ok(cmds_view(cmds@), Point2 { x: 0, y: 0 }),
                cmds@.len() > 0 ==> cmds_view(cmds@)[0] is LayerChange,
                objects@.len() == 0 ==> cmds@.len() == 0,
            decreases objects@.len() - j,
        {
            if k < objects[j].layers.len() {
                let slice = &objects[j].layers[k];
                let layer_settings = settings.get_layer_settings(k, slice.bottom_height);
                let thickness: i64 = slice.top_height - slice.bottom_height;
                let emit_marker: bool = match last_obj {
                    None => true,
                    Some(o) => !(o == j),
                };
                let (block, new_pos) = build_slice_block(
                    slice,
                    &layer_settings,
                    j,
                    k,
                    thickness,
                    emit_marker,
                    head_pos,
                    settings.minimum_retract_distance,
                );
                head_pos = new_pos;
                last_obj = Some(j);
                let ghost pre_cmds_vec = cmds@;
                let ghost pre_cmds = cmds_view(cmds@);
                let ghost block_vec = block@;
                let ghost block_view = cmds_view(block@);
                let mut block_m = block;
                cmds.append(&mut block_m);
                proof {
                    assert(cmds@ == pre_cmds_vec + block_vec);
                    lemma_cmds_view_concat(pre_cmds_vec, block_vec);
                    assert(cmds_view(cmds@) == pre_cmds + block_view);
                    lemma_motions_append(pre_cmds, block_view, Point2 { x: 0, y: 0 });
                    assert(motions_ok(block_view, end_pos(pre_cmds, Point2 { x: 0, y: 0 })));
                    if pre_cmds.len() > 0 {
                        assert(cmds_view(cmds@)[0] == pre_cmds[0]);
                    } else {
                        assert(cmds_view(cmds@)[0] == block_view[0]);
                    }
                }
            }
            j = j + 1;
        }
        proof {
            lemma_count_step(objects@, k as int, objects@.len() as int);
        }
        k = k + 1;
    }
    proof {
        lemma_count_total(objects@, max_layers as int, objects@.len() as int);
    }
    cmds
}

} // verus!
