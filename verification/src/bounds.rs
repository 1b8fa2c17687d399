//! Bounds checking: models before slicing and motions after plotting must
//! lie inside the print volume.

use vstd::prelude::*;

use crate::commands::{cmds_view, pt_bounded, Command, CommandV, Point2, MAX_COORD};
use crate::errors::{Axis, SlicerErrors};
use crate::geometry::{IndexedTriangle, Vertex};
use crate::optimizer::{cmd_bounded, cmds_bounded};
use crate::settings::Settings;

verus! {

/// True when the vertex lies inside the print volume.
pub open spec fn vertex_in_bounds(v: Vertex, s: Settings) -> bool {
    &&& 0 <= v.x <= s.print_x
    &&& 0 <= v.y <= s.print_y
    &&& 0 <= v.z <= s.print_z
}

/// True when every vertex of every model lies inside the print volume.
pub open spec fn models_in_bounds(
    models: Seq<(Vec<Vertex>, Vec<IndexedTriangle>)>,
    s: Settings,
) -> bool {
    forall|m: int, i: int|
        0 <= m < models.len() && 0 <= i < models[m].0@.len() ==> vertex_in_bounds(
            #[trigger] models[m].0@[i],
            s,
        )
}

/// Verifies that the bounding box of every model lies within the print
/// volume; the error names the first axis on which a vertex leaves it.
pub fn check_model_bounds(
    models: &Vec<(Vec<Vertex>, Vec<IndexedTriangle>)>,
    settings: &Settings,
) -> (r: Result<(), SlicerErrors>)
    ensures
        r is Ok <==> models_in_bounds(models@, *settings),
        (match r {
            Ok(_) => true,
            Err(e) => match e {
                SlicerErrors::ModelOutsideBounds { axis } => exists|m: int, i: int|
                    0 <= m < models@.len() && 0 <= i < models@[m].0@.len() && (match axis {
                        Axis::X => !(0 <= (#[trigger] models@[m].0@[i]).x <= settings.print_x),
                        Axis::Y => !(0 <= models@[m].0@[i].y <= settings.print_y),
                        Axis::Z => !(0 <= models@[m].0@[i].z <= settings.print_z),
                    }),
                _ => false,
            },
        }),
{
    let mut m: usize = 0;
    while m < models.len()
        invariant
            m <= models@.len(),
            forall|q: int, i: int|
                0 <= q < m && 0 <= i < models@[q].0@.len() ==> vertex_in_bounds(
                    #[trigger] models@[q].0@[i],
                    *settings,
                ),
        decreases models@.len() - m,
    {
        let verts = &models[m].0;
        let mut i: usize = 0;
        while i < verts.len()
            invariant
                i <= verts@.len(),
                m < models@.len(),
                verts == models@[m as int].0,
                forall|q: int, w: int|
                    0 <= q < m && 0 <= w < models@[q].0@.len() ==> vertex_in_bounds(
                        #[trigger] models@[q].0@[w],
                        *settings,
                    ),
                forall|w: int|
                    0 <= w < i ==> vertex_in_bounds(#[trigger] models@[m as int].0@[w], *settings),
            decreases verts@.len() - i,
        {
            let v = verts[i];
            if v.x < 0 || v.x > settings.print_x {
                return Err(SlicerErrors::ModelOutsideBounds { axis: Axis::X });
            }
            if v.y < 0 || v.y > settings.print_y {
                return Err(SlicerErrors::ModelOutsideBounds { axis: Axis::Y });
            }
            if v.z < 0 || v.z > settings.print_z {
                return Err(SlicerErrors::ModelOutsideBounds { axis: Axis::Z });
            }
            i = i + 1;
        }
        m = m + 1;
    }
    Ok(())
}

/// True when the point lies inside the bed.
pub open spec fn point_in_bed(p: Point2, s: Settings) -> bool {
    &&& 0 <= p.x <= s.print_x
    &&& 0 <= p.y <= s.print_y
}

/// True when every motion endpoint of the command lies inside the bed.
pub open spec fn cmd_in_bed(c: CommandV, s: Settings) -> bool {
    match c {
        CommandV::MoveTo { end } => point_in_bed(end, s),
        CommandV::MoveAndExtrude { start, end, .. } => point_in_bed(start, s) && point_in_bed(
            end,
            s,
        ),
        CommandV::Arc { start, end, center, .. } => point_in_bed(start, s) && point_in_bed(end, s)
            && point_in_bed(center, s),
        _ => true,
    }
}

/// True when every motion of the run stays inside the bed.
pub open spec fn moves_in_bounds(cmds: Seq<CommandV>, s: Settings) -> bool {
    forall|i: int| 0 <= i < cmds.len() ==> cmd_in_bed(#[trigger] cmds[i], s)
}

/// True when the point leaves the bed on the given axis.
pub open spec fn pt_violates_axis(p: Point2, s: Settings, axis: Axis) -> bool {
    match axis {
        Axis::X => !(0 <= p.x <= s.print_x),
        Axis::Y => !(0 <= p.y <= s.print_y),
        Axis::Z => false,
    }
}

/// True when some motion endpoint of the command leaves the bed on the
/// given axis.
pub open spec fn cmd_violates_axis(c: CommandV, s: Settings, axis: Axis) -> bool {
    match c {
        CommandV::MoveTo { end } => pt_violates_axis(end, s, axis),
        CommandV::MoveAndExtrude { start, end, .. } => pt_violates_axis(start, s, axis)
            || pt_violates_axis(end, s, axis),
        CommandV::Arc { start, end, center, .. } => pt_violates_axis(start, s, axis)
            || pt_violates_axis(end, s, axis) || pt_violates_axis(center, s, axis),
        _ => false,
    }
}

/// Decides whether a point lies inside the bed.
fn point_in_bed_exec(p: Point2, settings: &Settings) -> (r: bool)
    ensures
        r == point_in_bed(p, *settings),
{
    0 <= p.x && p.x <= settings.print_x && 0 <= p.y && p.y <= settings.print_y
}

/// Verifies that every planned motion lies within the bed; on success, and
/// with a bed no larger than the exact-arithmetic range, every command is
/// bounded for the optimizer.
pub fn check_moves_bounds(cmds: &Vec<Command>, settings: &Settings) -> (r: Result<
    (),
    SlicerErrors,
>)
    ensures
        r is Ok <==> moves_in_bounds(cmds_view(cmds@), *settings),
        (match r {
            Err(e) => match e {
                SlicerErrors::MovesOutsideBounds { axis } => exists|i: int|
                    0 <= i < cmds@.len() && cmd_violates_axis(
                        #[trigger] cmds_view(cmds@)[i],
                        *settings,
                        axis,
                    ),
                _ => false,
            },
            Ok(_) => true,
        }),
        r is Ok && settings.print_x <= MAX_COORD && settings.print_y <= MAX_COORD
            ==> cmds_bounded(cmds_view(cmds@)),
{
    let ghost cv = cmds_view(cmds@);
    let mut i: usize = 0;
    while i < cmds.len()
        invariant
            i <= cmds@.len(),
            cv == cmds_view(cmds@),
            forall|q: int| 0 <= q < i ==> cmd_in_bed(#[trigger] cv[q], *settings),
        decreases cmds@.len() - i,
    {
        let ok: bool = match &cmds[i] {
            Command::MoveTo { end } => point_in_bed_exec(*end, settings),
            Command::MoveAndExtrude { start, end, .. } => point_in_bed_exec(*start, settings)
                && point_in_bed_exec(*end, settings),
            Command::Arc { start, end, center, .. } => point_in_bed_exec(*start, settings)
                && point_in_bed_exec(*end, settings) && point_in_bed_exec(*center, settings),
            _ => true,
        };
        if !ok {
            proof {
                assert(!cmd_in_bed(cv[i as int], *settings));
            }
            let axis = match &cmds[i] {
                Command::MoveTo { end } => {
                    let a = if end.x < 0 || end.x > settings.print_x {
                        Axis::X
                    } else {
                        Axis::Y
                    };
                    proof {
                        assert(cmd_violates_axis(cv[i as int], *settings, a));
                    }
                    a
                },
                Command::MoveAndExtrude { start, end, .. } => {
                    let a = if start.x < 0 || start.x > settings.print_x || end.x < 0 || end.x
                        > settings.print_x {
                        Axis::X
                    } else {
                        Axis::Y
                    };
                    proof {
                        assert(cmd_violates_axis(cv[i as int], *settings, a));
                    }
                    a
                },
                Command::Arc { start, end, center, .. } => {
                    let a = if start.x < 0 || start.x > settings.print_x || end.x < 0 || end.x
                        > settings.print_x || center.x < 0 || center.x > settings.print_x {
                        Axis::X
                    } else {
                        Axis::Y
                    };
                    proof {
                        assert(cmd_violates_axis(cv[i as int], *settings, a));
                    }
                    a
                },
                _ => Axis::X,
            };
            return Err(SlicerErrors::MovesOutsideBounds { axis });
        }
        proof {
            assert(cmd_in_bed(cv[i as int], *settings));
        }
        i = i + 1;
    }
    proof {
        assert forall|q: int| 0 <= q < cv.len() implies cmd_bounded(#[trigger] cv[q]) || !(
        settings.print_x <= MAX_COORD && settings.print_y <= MAX_COORD) by {
            assert(cmd_in_bed(cv[q], *settings));
        }
    }
    Ok(())
}

} // verus!
