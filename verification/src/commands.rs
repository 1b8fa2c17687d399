//! The command stream: moves, state changes, and the commands the plotter
//! emits.  All coordinates are fixed-point integers (units of
//! `UNITS_PER_MM`ths of a millimetre); speeds, temperatures and fan values
//! are scaled by the same factor.
//!
//! Each executable type has a mathematical view; every contract over
//! commands and state changes is stated over those views.

use vstd::prelude::*;

verus! {

/// A 2D point in fixed-point units.
#[derive(Clone, Copy, Debug, PartialEq, Eq, Structural, Hash)]
pub struct Point2 {
    /// X coordinate in units.
    pub x: i64,
    /// Y coordinate in units.
    pub y: i64,
}

/// Coordinate magnitude up to which the collinearity determinant is computed
/// without overflow; far beyond any physical print volume.
pub const MAX_COORD: i64 = 1099511627776;

/// Absolute determinant below which three points count as collinear, in
/// squared units.
pub const COLLINEAR_TOL: i64 = 10;

/// True when the point's coordinates are small enough for exact
/// determinant arithmetic.
pub open spec fn pt_bounded(p: Point2) -> bool {
    &&& -MAX_COORD <= p.x <= MAX_COORD
    &&& -MAX_COORD <= p.y <= MAX_COORD
}

/// Category of a move; selects per-type speed, acceleration and width.
#[derive(Clone, Copy, Debug, PartialEq, Eq, Structural)]
pub enum MoveType {
    /// Solid infill on a top-exposed surface.
    TopSolidInfill,
    /// Solid infill elsewhere.
    SolidInfill,
    /// Partial infill.
    Infill,
    /// Outermost perimeter on an exterior surface.
    ExteriorSurfacePerimeter,
    /// Outermost perimeter facing an interior cavity.
    InteriorSurfacePerimeter,
    /// Inner perimeter on an exterior wall.
    ExteriorInnerPerimeter,
    /// Inner perimeter facing an interior cavity.
    InteriorInnerPerimeter,
    /// Extrusion across an unsupported span.
    Bridging,
    /// Support structure extrusion.
    Support,
    /// Non-extruding repositioning move.
    Travel,
}

/// An abstract 2D motion with category and extrusion width.
#[derive(Clone, Copy, Debug, PartialEq)]
pub struct Move {
    /// Where the move ends.
    pub end: Point2,
    /// Extrusion width in units; ignored for travel moves.
    pub width: i64,
    /// The category of the move.
    pub move_type: MoveType,
}

/// An ordered run of moves starting from a shared start point.
#[derive(Clone, Debug, PartialEq)]
pub struct MoveChain {
    /// Where the chain begins.
    pub start_point: Point2,
    /// The moves of the chain, in order.
    pub moves: Vec<Move>,
}

/// Retraction control carried by a state change.
#[derive(Clone, Debug, PartialEq)]
pub enum RetractionType {
    /// Leave the retraction state as it is.
    NoRetract,
    /// Retract the filament.
    Retract,
    /// Undo a retraction.
    Unretract,
    /// Retract gradually along the given waypoints, each paired with the
    /// amount retracted by that point.
    MoveRetract(Vec<(i64, Point2)>),
}

/// Mathematical view of a retraction control.
pub ghost enum RetractionTypeV {
    /// Leave the retraction state as it is.
    NoRetract,
    /// Retract the filament.
    Retract,
    /// Undo a retraction.
    Unretract,
    /// Retract gradually along waypoints.
    MoveRetract(Seq<(i64, Point2)>),
}

impl View for RetractionType {
    type V = RetractionTypeV;

    open spec fn view(&self) -> RetractionTypeV {
        match self {
            RetractionType::NoRetract => RetractionTypeV::NoRetract,
            RetractionType::Retract => RetractionTypeV::Retract,
            RetractionType::Unretract => RetractionTypeV::Unretract,
            RetractionType::MoveRetract(wps) => RetractionTypeV::MoveRetract(wps@),
        }
    }
}

/// A delta to the machine state: `None` fields inherit the current state.
#[derive(Clone, Debug, PartialEq)]
pub struct StateChange {
    /// Extruder temperature, scaled thousandths of a degree.
    pub extruder_temp: Option<i64>,
    /// Bed temperature, scaled thousandths of a degree.
    pub bed_temp: Option<i64>,
    /// Movement speed in units per second.
    pub movement_speed: Option<i64>,
    /// Acceleration in units per second squared.
    pub acceleration: Option<i64>,
    /// Part-cooling fan speed, scaled thousandths of a percent point.
    pub fan_speed: Option<i64>,
    /// Auxiliary fan speed, scaled thousandths of a percent point.
    pub aux_fan_speed: Option<i64>,
    /// Retraction control.
    pub retract: RetractionType,
}

/// Mathematical view of a state-change delta.
pub ghost struct StateChangeV {
    /// Extruder temperature.
    pub extruder_temp: Option<i64>,
    /// Bed temperature.
    pub bed_temp: Option<i64>,
    /// Movement speed.
    pub movement_speed: Option<i64>,
    /// Acceleration.
    pub acceleration: Option<i64>,
    /// Part-cooling fan speed.
    pub fan_speed: Option<i64>,
    /// Auxiliary fan speed.
    pub aux_fan_speed: Option<i64>,
    /// Retraction control.
    pub retract: RetractionTypeV,
}

impl View for StateChange {
    type V = StateChangeV;

    open spec fn view(&self) -> StateChangeV {
        StateChangeV {
            extruder_temp: self.extruder_temp,
            bed_temp: self.bed_temp,
            movement_speed: self.movement_speed,
            acceleration: self.acceleration,
            fan_speed: self.fan_speed,
            aux_fan_speed: self.aux_fan_speed,
            retract: self.retract@,
        }
    }
}

/// The lowest-level operation of the output stream.
#[derive(Clone, Debug, PartialEq)]
pub enum Command {
    /// Travel without extruding.
    MoveTo {
        /// Where the motion ends.
        end: Point2,
    },
    /// Extrude along a straight segment.
    MoveAndExtrude {
        /// Where the motion starts.
        start: Point2,
        /// Where the motion ends.
        end: Point2,
        /// Layer thickness in units.
        thickness: i64,
        /// Extrusion width in units.
        width: i64,
    },
    /// Extrude along a circular arc.
    Arc {
        /// Where the motion starts.
        start: Point2,
        /// Where the motion ends.
        end: Point2,
        /// Center of the arc.
        center: Point2,
        /// True for a clockwise arc.
        clockwise: bool,
        /// Layer thickness in units.
        thickness: i64,
        /// Extrusion width in units.
        width: i64,
    },
    /// Change to a new layer.
    LayerChange {
        /// Top height of the new layer in units.
        z: i64,
        /// Index of the new layer, from zero at the bottom.
        index: usize,
    },
    /// Apply a delta to the machine state.
    SetState {
        /// The delta to apply.
        new_state: StateChange,
    },
    /// Pause for the given number of milliseconds.
    Delay {
        /// Milliseconds to pause.
        msec: u64,
    },
    /// Switch to printing a different object.
    ChangeObject {
        /// Index of the object now being printed.
        object: usize,
    },
    /// Placeholder used during optimization; absent from a final stream.
    NoAction,
}

/// Mathematical view of a command.
pub ghost enum CommandV {
    /// Travel without extruding.
    MoveTo {
        /// Where the motion ends.
        end: Point2,
    },
    /// Extrude along a straight segment.
    MoveAndExtrude {
        /// Where the motion starts.
        start: Point2,
        /// Where the motion ends.
        end: Point2,
        /// Layer thickness in units.
        thickness: i64,
        /// Extrusion width in units.
        width: i64,
    },
    /// Extrude along a circular arc.
    Arc {
        /// Where the motion starts.
        start: Point2,
        /// Where the motion ends.
        end: Point2,
        /// Center of the arc.
        center: Point2,
        /// True for a clockwise arc.
        clockwise: bool,
        /// Layer thickness in units.
        thickness: i64,
        /// Extrusion width in units.
        width: i64,
    },
    /// Change to a new layer.
    LayerChange {
        /// Top height of the new layer in units.
        z: i64,
        /// Index of the new layer, from zero at the bottom.
        index: usize,
    },
    /// Apply a delta to the machine state.
    SetState {
        /// The delta to apply.
        new_state: StateChangeV,
    },
    /// Pause for the given number of milliseconds.
    Delay {
        /// Milliseconds to pause.
        msec: u64,
    },
    /// Switch to printing a different object.
    ChangeObject {
        /// Index of the object now being printed.
        object: usize,
    },
    /// Placeholder used during optimization.
    NoAction,
}

impl View for Command {
    type V = CommandV;

    open spec fn view(&self) -> CommandV {
        match self {
            Command::MoveTo { end } => CommandV::MoveTo { end: *end },
            Command::MoveAndExtrude { start, end, thickness, width } => CommandV::MoveAndExtrude {
                start: *start,
                end: *end,
                thickness: *thickness,
                width: *width,
            },
            Command::Arc { start, end, center, clockwise, thickness, width } => CommandV::Arc {
                start: *start,
                end: *end,
                center: *center,
                clockwise: *clockwise,
                thickness: *thickness,
                width: *width,
            },
            Command::LayerChange { z, index } => CommandV::LayerChange { z: *z, index: *index },
            Command::SetState { new_state } => CommandV::SetState { new_state: new_state@ },
            Command::Delay { msec } => CommandV::Delay { msec: *msec },
            Command::ChangeObject { object } => CommandV::ChangeObject { object: *object },
            Command::NoAction => CommandV::NoAction,
        }
    }
}

/// The views of a run of commands, in order.
pub open spec fn cmds_view(s: Seq<Command>) -> Seq<CommandV> {
    s.map_values(|c: Command| c@)
}

impl StateChange {
    /// The state change that changes nothing.
    pub fn empty() -> (r: StateChange)
        ensures
            r@ == StateChangeV::empty(),
    {
        StateChange {
            extruder_temp: None,
            bed_temp: None,
            movement_speed: None,
            acceleration: None,
            fan_speed: None,
            aux_fan_speed: None,
            retract: RetractionType::NoRetract,
        }
    }

    /// Decides whether this delta changes nothing.
    pub fn is_empty(&self) -> (r: bool)
        ensures
            r == self@.is_empty(),
    {
        self.extruder_temp.is_none() && self.bed_temp.is_none() && self.movement_speed.is_none()
            && self.acceleration.is_none() && self.fan_speed.is_none()
            && self.aux_fan_speed.is_none() && matches!(self.retract, RetractionType::NoRetract)
    }

    /// Overlay `other` on `self`: `other` wins on fields it sets, `self`
    /// fills the rest.
    pub fn combine(&self, other: &StateChange) -> (r: StateChange)
        ensures
            r@ == StateChangeV::combine(self@, other@),
    {
        StateChange {
            extruder_temp: or_field(&other.extruder_temp, &self.extruder_temp),
            bed_temp: or_field(&other.bed_temp, &self.bed_temp),
            movement_speed: or_field(&other.movement_speed, &self.movement_speed),
            acceleration: or_field(&other.acceleration, &self.acceleration),
            fan_speed: or_field(&other.fan_speed, &self.fan_speed),
            aux_fan_speed: or_field(&other.aux_fan_speed, &self.aux_fan_speed),
            retract: if matches!(other.retract, RetractionType::NoRetract) {
                copy_retraction(&self.retract)
            } else {
                copy_retraction(&other.retract)
            },
        }
    }

    /// Rewrite `other` to only the fields that differ from the running state
    /// `self`, and fold `other` into `self`.
    pub fn state_diff(&mut self, other: &StateChange) -> (r: StateChange)
        ensures
            r@ == StateChangeV::diff_delta(old(self)@, other@),
            final(self)@ == StateChangeV::diff_machine(old(self)@, other@),
    {
        let delta = StateChange {
            extruder_temp: diff_field_exec(&self.extruder_temp, &other.extruder_temp),
            bed_temp: diff_field_exec(&self.bed_temp, &other.bed_temp),
            movement_speed: diff_field_exec(&self.movement_speed, &other.movement_speed),
            acceleration: diff_field_exec(&self.acceleration, &other.acceleration),
            fan_speed: diff_field_exec(&self.fan_speed, &other.fan_speed),
            aux_fan_speed: diff_field_exec(&self.aux_fan_speed, &other.aux_fan_speed),
            retract: if retract_effect_matches(&self.retract, &other.retract) {
                RetractionType::NoRetract
            } else {
                copy_retraction(&other.retract)
            },
        };
        let machine = StateChange {
            extruder_temp: upd_field_exec(&self.extruder_temp, &other.extruder_temp),
            bed_temp: upd_field_exec(&self.bed_temp, &other.bed_temp),
            movement_speed: upd_field_exec(&self.movement_speed, &other.movement_speed),
            acceleration: upd_field_exec(&self.acceleration, &other.acceleration),
            fan_speed: upd_field_exec(&self.fan_speed, &other.fan_speed),
            aux_fan_speed: upd_field_exec(&self.aux_fan_speed, &other.aux_fan_speed),
            retract: if retract_effect_matches(&self.retract, &other.retract) {
                copy_retraction(&self.retract)
            } else {
                copy_retraction(&other.retract)
            },
        };
        *self = machine;
        delta
    }
}

impl StateChangeV {
    /// The state change that changes nothing.
    pub open spec fn empty() -> StateChangeV {
        StateChangeV {
            extruder_temp: None,
            bed_temp: None,
            movement_speed: None,
            acceleration: None,
            fan_speed: None,
            aux_fan_speed: None,
            retract: RetractionTypeV::NoRetract,
        }
    }

    /// True when every field inherits: applying this delta changes nothing.
    pub open spec fn is_empty(self) -> bool {
        &&& self.extruder_temp is None
        &&& self.bed_temp is None
        &&& self.movement_speed is None
        &&& self.acceleration is None
        &&& self.fan_speed is None
        &&& self.aux_fan_speed is None
        &&& self.retract is NoRetract
    }

    /// The overlay of `other` on `base`: `other` wins on fields it sets.
    pub open spec fn combine(base: StateChangeV, other: StateChangeV) -> StateChangeV {
        StateChangeV {
            extruder_temp: or_spec(other.extruder_temp, base.extruder_temp),
            bed_temp: or_spec(other.bed_temp, base.bed_temp),
            movement_speed: or_spec(other.movement_speed, base.movement_speed),
            acceleration: or_spec(other.acceleration, base.acceleration),
            fan_speed: or_spec(other.fan_speed, base.fan_speed),
            aux_fan_speed: or_spec(other.aux_fan_speed, base.aux_fan_speed),
            retract: if other.retract is NoRetract {
                base.retract
            } else {
                other.retract
            },
        }
    }

    /// The delta that state diffing produces: only what differs from the
    /// running state `machine` survives.
    pub open spec fn diff_delta(machine: StateChangeV, other: StateChangeV) -> StateChangeV {
        StateChangeV {
            extruder_temp: diff_field(machine.extruder_temp, other.extruder_temp),
            bed_temp: diff_field(machine.bed_temp, other.bed_temp),
            movement_speed: diff_field(machine.movement_speed, other.movement_speed),
            acceleration: diff_field(machine.acceleration, other.acceleration),
            fan_speed: diff_field(machine.fan_speed, other.fan_speed),
            aux_fan_speed: diff_field(machine.aux_fan_speed, other.aux_fan_speed),
            retract: if retract_effect(other.retract) is None || retract_effect(other.retract)
                == retract_effect(machine.retract) {
                RetractionTypeV::NoRetract
            } else {
                other.retract
            },
        }
    }

    /// The running state after state diffing folds `other` into `machine`.
    pub open spec fn diff_machine(machine: StateChangeV, other: StateChangeV) -> StateChangeV {
        StateChangeV {
            extruder_temp: upd_field(machine.extruder_temp, other.extruder_temp),
            bed_temp: upd_field(machine.bed_temp, other.bed_temp),
            movement_speed: upd_field(machine.movement_speed, other.movement_speed),
            acceleration: upd_field(machine.acceleration, other.acceleration),
            fan_speed: upd_field(machine.fan_speed, other.fan_speed),
            aux_fan_speed: upd_field(machine.aux_fan_speed, other.aux_fan_speed),
            retract: if retract_effect(other.retract) is None || retract_effect(other.retract)
                == retract_effect(machine.retract) {
                machine.retract
            } else {
                other.retract
            },
        }
    }
}

/// What a retraction control does to the machine's retracted flag, or `None`
/// when it leaves it alone.
pub open spec fn retract_effect(rt: RetractionTypeV) -> Option<bool> {
    match rt {
        RetractionTypeV::NoRetract => None,
        RetractionTypeV::Retract => Some(true),
        RetractionTypeV::Unretract => Some(false),
        RetractionTypeV::MoveRetract(_) => Some(true),
    }
}

/// Copies a retraction control; unlike `clone`, the copy is known to equal
/// the original's view.
pub fn copy_retraction(rt: &RetractionType) -> (r: RetractionType)
    ensures
        r@ == rt@,
{
    match rt {
        RetractionType::NoRetract => RetractionType::NoRetract,
        RetractionType::Retract => RetractionType::Retract,
        RetractionType::Unretract => RetractionType::Unretract,
        RetractionType::MoveRetract(wps) => {
            let mut copy: Vec<(i64, Point2)> = Vec::new();
            let mut i: usize = 0;
            while i < wps.len()
                invariant
                    i <= wps@.len(),
                    copy@ == wps@.take(i as int),
                decreases wps@.len() - i,
            {
                copy.push(wps[i]);
                i = i + 1;
                proof {
                    assert(copy@ =~= wps@.take(i as int));
                }
            }
            proof {
                assert(wps@.take(wps@.len() as int) =~= wps@);
            }
            RetractionType::MoveRetract(copy)
        },
    }
}

/// Copies a state change; the copy is known to equal the original's view.
pub fn copy_state_change(s: &StateChange) -> (r: StateChange)
    ensures
        r@ == s@,
{
    StateChange {
        extruder_temp: s.extruder_temp,
        bed_temp: s.bed_temp,
        movement_speed: s.movement_speed,
        acceleration: s.acceleration,
        fan_speed: s.fan_speed,
        aux_fan_speed: s.aux_fan_speed,
        retract: copy_retraction(&s.retract),
    }
}

/// Copies a command; the copy is known to equal the original's view.
pub fn copy_command(c: &Command) -> (r: Command)
    ensures
        r@ == c@,
{
    match c {
        Command::MoveTo { end } => Command::MoveTo { end: *end },
        Command::MoveAndExtrude { start, end, thickness, width } => Command::MoveAndExtrude {
            start: *start,
            end: *end,
            thickness: *thickness,
            width: *width,
        },
        Command::Arc { start, end, center, clockwise, thickness, width } => Command::Arc {
            start: *start,
            end: *end,
            center: *center,
            clockwise: *clockwise,
            thickness: *thickness,
            width: *width,
        },
        Command::LayerChange { z, index } => Command::LayerChange { z: *z, index: *index },
        Command::SetState { new_state } => Command::SetState {
            new_state: copy_state_change(new_state),
        },
        Command::Delay { msec } => Command::Delay { msec: *msec },
        Command::ChangeObject { object } => Command::ChangeObject { object: *object },
        Command::NoAction => Command::NoAction,
    }
}

/// Decides whether `other` either leaves the retracted flag alone or sets it
/// to what `machine` already establishes.
fn retract_effect_matches(machine: &RetractionType, other: &RetractionType) -> (r: bool)
    ensures
        r == (retract_effect(other@) is None || retract_effect(other@) == retract_effect(
            machine@,
        )),
{
    let oe: Option<bool> = match other {
        RetractionType::NoRetract => None,
        RetractionType::Retract => Some(true),
        RetractionType::Unretract => Some(false),
        RetractionType::MoveRetract(_) => Some(true),
    };
    let me: Option<bool> = match machine {
        RetractionType::NoRetract => None,
        RetractionType::Retract => Some(true),
        RetractionType::Unretract => Some(false),
        RetractionType::MoveRetract(_) => Some(true),
    };
    match (oe, me) {
        (None, _) => true,
        (Some(o), Some(m)) => o == m,
        (Some(_), None) => false,
    }
}

/// `a` if set, else `b`, as a spec value.
pub open spec fn or_spec(a: Option<i64>, b: Option<i64>) -> Option<i64> {
    if a is Some {
        a
    } else {
        b
    }
}

fn or_field(a: &Option<i64>, b: &Option<i64>) -> (r: Option<i64>)
    ensures
        r == or_spec(*a, *b),
{
    match a {
        Some(v) => Some(*v),
        None => *b,
    }
}

/// The diffed value of one scalar field: inherit when `other` matches the
/// running state, else request `other`'s value.
pub open spec fn diff_field(machine: Option<i64>, other: Option<i64>) -> Option<i64> {
    if machine == other {
        None
    } else {
        other
    }
}

/// The running state of one scalar field after the diff.
pub open spec fn upd_field(machine: Option<i64>, other: Option<i64>) -> Option<i64> {
    if machine == other {
        machine
    } else {
        or_spec(other, machine)
    }
}

fn opt_i64_eq(a: &Option<i64>, b: &Option<i64>) -> (r: bool)
    ensures
        r == (*a == *b),
{
    match (a, b) {
        (None, None) => true,
        (Some(x), Some(y)) => *x == *y,
        _ => false,
    }
}

fn diff_field_exec(machine: &Option<i64>, other: &Option<i64>) -> (r: Option<i64>)
    ensures
        r == diff_field(*machine, *other),
{
    if opt_i64_eq(machine, other) {
        None
    } else {
        *other
    }
}

fn upd_field_exec(machine: &Option<i64>, other: &Option<i64>) -> (r: Option<i64>)
    ensures
        r == upd_field(*machine, *other),
{
    if opt_i64_eq(machine, other) {
        *machine
    } else {
        or_field(other, machine)
    }
}

} // verus!
