//! Aggregate mathematics over the command stream: exact integer square
//! roots, segment lengths, print-time and filament totals, and the
//! per-layer slow-down pass.

use vstd::prelude::*;

use crate::commands::{cmds_view, pt_bounded, Command, CommandV, Point2, StateChange};
use crate::optimizer::{cmd_bounded, cmds_bounded};
use crate::settings::{FanSettings, Settings};

verus! {

/// The integer square root: the greatest `r` with `r * r <= n`.
pub open spec fn sqrt_floor(n: int) -> int {
    choose|r: int| r >= 0 && #[trigger] (r * r) <= n < (r + 1) * (r + 1)
}

/// The square-root property pins its value.
pub proof fn lemma_sqrt_unique(n: int, r1: int, r2: int)
    requires
        r1 >= 0,
        r1 * r1 <= n < (r1 + 1) * (r1 + 1),
        r2 >= 0,
        r2 * r2 <= n < (r2 + 1) * (r2 + 1),
    ensures
        r1 == r2,
{
    assert(r1 == r2) by (nonlinear_arith)
        requires
            r1 >= 0,
            r1 * r1 <= n < (r1 + 1) * (r1 + 1),
            r2 >= 0,
            r2 * r2 <= n < (r2 + 1) * (r2 + 1),
    ;
}

/// Computes the integer square root exactly.
pub fn isqrt(n: u128) -> (r: u64)
    ensures
        r == sqrt_floor(n as int),
        (r as int) * (r as int) <= n as int,
        (n as int) < (r as int + 1) * (r as int + 1),
{
    let mut lo: u64 = 0;
    let mut hi: u64 = u64::MAX;
    proof {
        assert((hi as int + 1) * (hi as int + 1) > n as int) by (nonlinear_arith)
            requires
                hi == u64::MAX,
                n <= u128::MAX,
        ;
    }
    while lo < hi
        invariant
            (lo as int) * (lo as int) <= n as int,
            (hi as int + 1) * (hi as int + 1) > n as int,
            lo <= hi,
        decreases hi - lo,
    {
        let d: u64 = hi - lo;
        let mid: u64 = lo + d / 2 + d % 2;
        let m: u128 = mid as u128;
        proof {
            assert(m * m <= 340282366920938463463374607431768211455) by (nonlinear_arith)
                requires
                    m <= 18446744073709551615,
            ;
        }
        if m * m <= n {
            lo = mid;
        } else {
            hi = mid - 1;
        }
    }
    proof {
        let r = lo as int;
        assert(r >= 0 && r * r <= n as int && (n as int) < (r + 1) * (r + 1));
        lemma_sqrt_unique(n as int, r, sqrt_floor(n as int));
    }
    lo
}

/// The length of the segment from `a` to `b`, rounded down.
pub open spec fn seg_len(a: Point2, b: Point2) -> int {
    sqrt_floor((b.x - a.x) * (b.x - a.x) + (b.y - a.y) * (b.y - a.y))
}

/// Computes the segment length exactly.
pub fn seg_length(a: Point2, b: Point2) -> (r: u64)
    requires
        pt_bounded(a),
        pt_bounded(b),
    ensures
        r == seg_len(a, b),
        r <= 6221254864075,
{
    let dx: i128 = b.x as i128 - a.x as i128;
    let dy: i128 = b.y as i128 - a.y as i128;
    proof {
        assert(dx * dx >= 0 && dx * dx <= 19342813113834066795298816 && dy * dy >= 0 && dy * dy
            <= 19342813113834066795298816) by (nonlinear_arith)
            requires
                -2199023255552 <= dx <= 2199023255552,
                -2199023255552 <= dy <= 2199023255552,
        ;
    }
    let sq: u128 = (dx * dx) as u128 + (dy * dy) as u128;
    let r = isqrt(sq);
    proof {
        assert((r as int) * (r as int) <= sq as int);
        assert(r <= 6221254864075) by (nonlinear_arith)
            requires
                r >= 0,
                (r as int) * (r as int) <= 38685626227668133590597632,
        ;
    }
    r
}

/// Addition clamped into the representable range.
pub open spec fn sat_add(a: int, b: int) -> int {
    if a + b > i64::MAX {
        i64::MAX as int
    } else if a + b < i64::MIN {
        i64::MIN as int
    } else {
        a + b
    }
}

/// A value clamped into the exact-arithmetic coordinate range.
pub open spec fn clamp_coord(x: int) -> int {
    if x > crate::commands::MAX_COORD {
        crate::commands::MAX_COORD as int
    } else if x < -crate::commands::MAX_COORD {
        -crate::commands::MAX_COORD as int
    } else {
        x
    }
}

/// The cross-sectional area of an extruded bead: a rectangle of width
/// `w - t` and two half-round caps of diameter `t`, with the round part
/// scaled by a fixed-point quarter pi.  Dimensions beyond the
/// exact-arithmetic range are clamped.
pub open spec fn bead_area(w: int, t: int) -> int {
    let wc = clamp_coord(w);
    let tc = clamp_coord(t);
    (wc - tc) * tc + (tc * tc * 785398) / 1000000
}

/// The milliseconds a motion of length `len` takes at `speed` units per
/// second, or zero when no speed is set.
pub open spec fn motion_time(len: int, speed: int) -> int {
    if speed > 0 {
        (1000 * len) / speed
    } else {
        0
    }
}

/// The totals of a command run, walked with a running position and speed:
/// extruded volume, extruded length, and print time in milliseconds, each
/// clamped at the largest representable value.
pub open spec fn cv_walk(
    s: Seq<CommandV>,
    pos: Point2,
    speed: int,
    vol: int,
    len: int,
    time: int,
) -> (int, int, int)
    decreases s.len(),
{
    if s.len() == 0 {
        (vol, len, time)
    } else {
        match s[0] {
            CommandV::MoveTo { end } => cv_walk(
                s.skip(1),
                end,
                speed,
                vol,
                len,
                sat_add(time, motion_time(seg_len(pos, end), speed)),
            ),
            CommandV::MoveAndExtrude { start, end, thickness, width } => cv_walk(
                s.skip(1),
                end,
                speed,
                sat_add(vol, bead_area(width as int, thickness as int) * seg_len(start, end)),
                sat_add(len, seg_len(start, end)),
                sat_add(time, motion_time(seg_len(start, end), speed)),
            ),
            CommandV::Arc { start, end, thickness, width, .. } => cv_walk(
                s.skip(1),
                end,
                speed,
                sat_add(vol, bead_area(width as int, thickness as int) * seg_len(start, end)),
                sat_add(len, seg_len(start, end)),
                sat_add(time, motion_time(seg_len(start, end), speed)),
            ),
            CommandV::SetState { new_state } => cv_walk(
                s.skip(1),
                pos,
                (match new_state.movement_speed {
                    Some(v) => v as int,
                    None => speed,
                }),
                vol,
                len,
                time,
            ),
            CommandV::Delay { msec } => cv_walk(
                s.skip(1),
                pos,
                speed,
                vol,
                len,
                sat_add(time, msec as int),
            ),
            _ => cv_walk(s.skip(1), pos, speed, vol, len, time),
        }
    }
}

/// The totals the pipeline reports at the end of a run.
#[derive(Clone, Copy, Debug, PartialEq, Eq, Structural)]
pub struct CalculatedValues {
    /// Extruded plastic volume, in cubic units.
    pub plastic_volume: i64,
    /// Extruded path length, in units.
    pub plastic_length: i64,
    /// Plastic weight, in thousandths of a gram.
    pub plastic_weight: i64,
    /// Total print time, in milliseconds.
    pub total_time: i64,
}

/// The weight of a volume of filament, in thousandths of a gram, from a
/// density in thousandths of a gram per cubic centimetre; zero when either
/// is negative.
pub open spec fn weight_of(volume: int, density: int) -> int {
    if volume >= 0 && density >= 0 {
        (volume * density) / 1000000000000
    } else {
        0
    }
}

/// Adds two values, clamping into the representable range.
fn sat_add_exec(a: i64, b: i64) -> (r: i64)
    ensures
        r == sat_add(a as int, b as int),
{
    let s: i128 = a as i128 + b as i128;
    if s > i64::MAX as i128 {
        i64::MAX
    } else if s < i64::MIN as i128 {
        i64::MIN
    } else {
        s as i64
    }
}

/// Clamps a value into the exact-arithmetic coordinate range.
pub fn clamp_coord_exec(x: i64) -> (r: i64)
    ensures
        r == clamp_coord(x as int),
{
    if x > crate::commands::MAX_COORD {
        crate::commands::MAX_COORD
    } else if x < -crate::commands::MAX_COORD {
        -crate::commands::MAX_COORD
    } else {
        x
    }
}

/// Computes the bead area exactly.
fn bead_area_exec(w: i64, t: i64) -> (r: i128)
    ensures
        r == bead_area(w as int, t as int),
        -3626777458843887524118528 <= r <= 3626777458843887524118528,
{
    let wc: i128 = clamp_coord_exec(w) as i128;
    let tc: i128 = clamp_coord_exec(t) as i128;
    proof {
        assert((wc - tc) * tc <= 2417851639229258349412352 && (wc - tc) * tc
            >= -2417851639229258349412352 && tc * tc >= 0 && tc * tc
            <= 1208925819614629174706176) by (nonlinear_arith)
            requires
                -1099511627776 <= wc <= 1099511627776,
                -1099511627776 <= tc <= 1099511627776,
        ;
        assert((tc * tc) * 785398 <= 1208925819614629174706176 * 1000000 && (tc * tc) * 785398
            >= 0) by (nonlinear_arith)
            requires
                0 <= tc * tc <= 1208925819614629174706176,
        ;
        vstd::arithmetic::div_mod::lemma_div_is_ordered(
            ((tc * tc) * 785398) as int,
            1208925819614629174706176int * 1000000int,
            1000000int,
        );
        vstd::arithmetic::div_mod::lemma_div_by_multiple(
            1208925819614629174706176int,
            1000000int,
        );
        assert((((tc * tc) * 785398) as int) / 1000000 >= 0) by {
            vstd::arithmetic::div_mod::lemma_div_is_ordered(
                0int,
                ((tc * tc) * 785398) as int,
                1000000int,
            );
        }
    }
    (wc - tc) * tc + ((tc * tc) * 785398) / 1000000
}

/// Computes a motion's time exactly.
fn motion_time_exec(len: u64, speed: i64) -> (r: i128)
    ensures
        r == motion_time(len as int, speed as int),
        0 <= r <= 18446744073709551616000,
{
    if speed > 0 {
        let t: i128 = (1000 * (len as i128)) / (speed as i128);
        proof {
            assert(0 <= t <= 1000 * (len as int)) by (nonlinear_arith)
                requires
                    t == (1000 * (len as int)) / (speed as int),
                    speed >= 1,
                    len >= 0,
            ;
        }
        t
    } else {
        0
    }
}

/// Adds a bounded increment to a clamped total.
fn sat_add_time(a: i64, b: i128) -> (r: i64)
    requires
        0 <= b <= 18446744073709551616000,
    ensures
        r == sat_add(a as int, b as int),
{
    let su: i128 = a as i128 + b;
    if su > i64::MAX as i128 {
        i64::MAX
    } else if su < i64::MIN as i128 {
        i64::MIN
    } else {
        su as i64
    }
}

/// Integrates the command stream: every extrusion contributes volume and
/// length, every motion and delay contributes time, exactly as the
/// slow-down pass models it.
pub fn calculate_values(cmds: &Vec<Command>, settings: &Settings) -> (r: CalculatedValues)
    requires
        cmds_bounded(cmds_view(cmds@)),
    ensures
        (r.plastic_volume as int, r.plastic_length as int, r.total_time as int) == cv_walk(
            cmds_view(cmds@),
            Point2 { x: 0, y: 0 },
            0,
            0,
            0,
            0,
        ),
        r.plastic_weight as int == sat_add(
            0,
            weight_of(r.plastic_volume as int, settings.filament.density as int),
        ),
{
    let ghost cv = cmds_view(cmds@);
    proof {
        assert(cv.skip(0) =~= cv);
    }
    let mut pos = Point2 { x: 0, y: 0 };
    let mut speed: i64 = 0;
    let mut vol: i64 = 0;
    let mut len: i64 = 0;
    let mut time: i64 = 0;
    let mut i: usize = 0;
    while i < cmds.len()
        invariant
            i <= cmds@.len(),
            cv == cmds_view(cmds@),
            cmds_bounded(cv),
            pt_bounded(pos),
            time >= 0,
            len >= 0,
            cv_walk(cv, Point2 { x: 0, y: 0 }, 0, 0, 0, 0) == cv_walk(
                cv.skip(i as int),
                pos,
                speed as int,
                vol as int,
                len as int,
                time as int,
            ),
        decreases cmds@.len() - i,
    {
        proof {
            assert(cv.skip(i as int)[0] == cv[i as int]);
            assert(cv.skip(i as int).skip(1) =~= cv.skip(i + 1));
            assert(cmd_bounded(cv[i as int]));
        }
        let ghost opos = pos;
        let ghost ospeed = speed;
        let ghost ovol = vol;
        let ghost olen = len;
        let ghost otime = time;
        match &cmds[i] {
            Command::MoveTo { end } => {
                let l = seg_length(pos, *end);
                time = sat_add_time(time, motion_time_exec(l, speed));
                pos = *end;
            },
            Command::MoveAndExtrude { start, end, thickness, width } => {
                let l = seg_length(*start, *end);
                let area = bead_area_exec(*width, *thickness);
                proof {
                    assert(area * (l as int) <= 25387442211907212668829696000000000000 && area
                        * (l as int) >= -25387442211907212668829696000000000000)
                        by (nonlinear_arith)
                        requires
                            -3626777458843887524118528 <= area <= 3626777458843887524118528,
                            0 <= l <= 6221254864075,
                    ;
                }
                let dv: i128 = area * (l as i128);
                let nv: i128 = vol as i128 + dv;
                vol = if nv > i64::MAX as i128 {
                    i64::MAX
                } else if nv < i64::MIN as i128 {
                    i64::MIN
                } else {
                    nv as i64
                };
                len = sat_add_exec(len, if l > i64::MAX as u64 {
                    i64::MAX
                } else {
                    l as i64
                });
                time = sat_add_time(time, motion_time_exec(l, speed));
                pos = *end;
            },
            Command::Arc { start, end, thickness, width, .. } => {
                let l = seg_length(*start, *end);
                let area = bead_area_exec(*width, *thickness);
                proof {
                    assert(area * (l as int) <= 25387442211907212668829696000000000000 && area
                        * (l as int) >= -25387442211907212668829696000000000000)
                        by (nonlinear_arith)
                        requires
                            -3626777458843887524118528 <= area <= 3626777458843887524118528,
                            0 <= l <= 6221254864075,
                    ;
                }
                let dv: i128 = area * (l as i128);
                let nv: i128 = vol as i128 + dv;
                vol = if nv > i64::MAX as i128 {
                    i64::MAX
                } else if nv < i64::MIN as i128 {
                    i64::MIN
                } else {
                    nv as i64
                };
                len = sat_add_exec(len, if l > i64::MAX as u64 {
                    i64::MAX
                } else {
                    l as i64
                });
                time = sat_add_time(time, motion_time_exec(l, speed));
                pos = *end;
            },
            Command::SetState { new_state } => {
                match new_state.movement_speed {
                    Some(v) => {
                        speed = v;
                    },
                    None => {},
                }
            },
            Command::Delay { msec } => {
                time = sat_add_exec(time, if *msec > i64::MAX as u64 {
                    i64::MAX
                } else {
                    *msec as i64
                });
            },
            _ => {},
        }
        proof {
            assert(cv_walk(
                cv.skip(i as int),
                opos,
                ospeed as int,
                ovol as int,
                olen as int,
                otime as int,
            ) == cv_walk(
                cv.skip(i + 1),
                pos,
                speed as int,
                vol as int,
                len as int,
                time as int,
            ));
        }
        i = i + 1;
    }
    proof {
        assert(cv.skip(cv.len() as int) =~= Seq::<CommandV>::empty());
    }
    let density = settings.filament.density;
    let weight: i64 = if vol >= 0 && density >= 0 {
        proof {
            assert((vol as int) * (density as int) <= 85070591730234615865843651857942052864 && (
            vol as int) * (density as int) >= 0) by (nonlinear_arith)
                requires
                    0 <= vol <= 9223372036854775807,
                    0 <= density <= 9223372036854775807,
            ;
        }
        let p: i128 = (vol as i128) * (density as i128);
        let w: i128 = p / 1000000000000;
        if w > i64::MAX as i128 {
            i64::MAX
        } else {
            w as i64
        }
    } else {
        0
    };
    CalculatedValues {
        plastic_volume: vol,
        plastic_length: len,
        plastic_weight: weight,
        total_time: time,
    }
}

/// A speed scaled by `num / den` and clamped from below by the lesser of
/// itself and the minimum print speed: slowing never drops a speed below
/// the configured floor, and never below a speed already under the floor.
pub open spec fn scale_clamped(v: int, num: int, den: int, min_speed: int) -> int {
    let sc = (v * num) / den;
    let lo = if v <= min_speed {
        v
    } else {
        min_speed
    };
    if sc >= lo {
        sc
    } else {
        lo
    }
}

/// The running window index of command `i`: how many layer changes come
/// before it; the command after the `w`-th layer change belongs to window
/// `w + 1`, and a layer change itself still closes its own window.
pub open spec fn window_of(s: Seq<CommandV>, i: int) -> int {
    crate::plotter::count_layer_changes(s.take(i))
}

/// The print time of each layer window: a walk with running position and
/// speed that closes the current window at every layer change; the walk's
/// last window closes at the end of the run.
pub open spec fn window_times_walk(
    s: Seq<CommandV>,
    pos: Point2,
    speed: int,
    cur: int,
    acc: Seq<int>,
) -> Seq<int>
    decreases s.len(),
{
    if s.len() == 0 {
        acc.push(cur)
    } else {
        match s[0] {
            CommandV::MoveTo { end } => window_times_walk(
                s.skip(1),
                end,
                speed,
                sat_add(cur, motion_time(seg_len(pos, end), speed)),
                acc,
            ),
            CommandV::MoveAndExtrude { start, end, .. } => window_times_walk(
                s.skip(1),
                end,
                speed,
                sat_add(cur, motion_time(seg_len(start, end), speed)),
                acc,
            ),
            CommandV::Arc { start, end, .. } => window_times_walk(
                s.skip(1),
                end,
                speed,
                sat_add(cur, motion_time(seg_len(start, end), speed)),
                acc,
            ),
            CommandV::SetState { new_state } => window_times_walk(
                s.skip(1),
                pos,
                (match new_state.movement_speed {
                    Some(v) => v as int,
                    None => speed,
                }),
                cur,
                acc,
            ),
            CommandV::Delay { msec } => window_times_walk(
                s.skip(1),
                pos,
                speed,
                sat_add(cur, msec as int),
                acc,
            ),
            CommandV::LayerChange { .. } => window_times_walk(
                s.skip(1),
                pos,
                speed,
                0,
                acc.push(cur),
            ),
            _ => window_times_walk(s.skip(1), pos, speed, cur, acc),
        }
    }
}

/// The print time of each layer window of the run.
pub open spec fn window_times_of(s: Seq<CommandV>) -> Seq<int> {
    window_times_walk(s, Point2 { x: 0, y: 0 }, 0, 0, Seq::empty())
}

/// The numerator of a window's slow-down ratio: its time when that lies
/// under the threshold, else the threshold itself (no slowing).
pub open spec fn win_num(times: Seq<int>, w: int, den: int) -> int {
    if 0 <= w < times.len() && 0 <= times[w] < den {
        times[w]
    } else {
        den
    }
}

/// How the slow-down pass rewrites one command with ratio `num / den`:
/// a state change keeps every field but scales a set movement speed,
/// clamped at the minimum print speed; every other command is untouched.
pub open spec fn slowdown_rel(a: CommandV, b: CommandV, num: int, den: int, min_speed: int) -> bool {
    match a {
        CommandV::SetState { new_state: s } => match b {
            CommandV::SetState { new_state: s2 } => {
                &&& s2.extruder_temp == s.extruder_temp
                &&& s2.bed_temp == s.bed_temp
                &&& s2.acceleration == s.acceleration
                &&& s2.fan_speed == s.fan_speed
                &&& s2.aux_fan_speed == s.aux_fan_speed
                &&& s2.retract == s.retract
                &&& (match s.movement_speed {
                    None => s2.movement_speed is None,
                    Some(v) => s2.movement_speed == Some(
                        (if v >= 0 {
                            scale_clamped(v as int, num, den, min_speed)
                        } else {
                            v as int
                        }) as i64,
                    ),
                })
            },
            _ => false,
        },
        _ => b == a,
    }
}

/// Slowing a command down never changes which commands the unary pass
/// keeps: motions and markers are untouched, and a state change keeps a
/// speed set exactly when it was set.
pub proof fn lemma_slowdown_keeps(a: CommandV, b: CommandV, num: int, den: int, min_speed: int)
    requires
        slowdown_rel(a, b, num, den, min_speed),
    ensures
        crate::optimizer::cmd_keep(b) == crate::optimizer::cmd_keep(a),
{
}

/// Slowing a command down never moves it: boundedness is untouched.
pub proof fn lemma_slowdown_bounded(a: CommandV, b: CommandV, num: int, den: int, min_speed: int)
    requires
        slowdown_rel(a, b, num, den, min_speed),
        cmd_bounded(a),
    ensures
        cmd_bounded(b),
{
}

/// Computes each layer window's print time exactly.
fn window_times(cmds: &Vec<Command>) -> (times: Vec<i64>)
    requires
        cmds_bounded(cmds_view(cmds@)),
    ensures
        times@.map_values(|t: i64| t as int) == window_times_of(cmds_view(cmds@)),
        times@.len() >= 1,
{
    let ghost cv = cmds_view(cmds@);
    let ghost m0 = Point2 { x: 0, y: 0 };
    let mut times: Vec<i64> = Vec::new();
    let mut cur: i64 = 0;
    let mut pos = Point2 { x: 0, y: 0 };
    let mut speed: i64 = 0;
    let mut i: usize = 0;
    proof {
        assert(cv.skip(0) =~= cv);
        assert(times@.map_values(|t: i64| t as int) =~= Seq::<int>::empty());
    }
    while i < cmds.len()
        invariant
            i <= cmds@.len(),
            cv == cmds_view(cmds@),
            cmds_bounded(cv),
            pt_bounded(pos),
            cur >= 0,
            window_times_of(cv) == window_times_walk(
                cv.skip(i as int),
                pos,
                speed as int,
                cur as int,
                times@.map_values(|t: i64| t as int),
            ),
        decreases cmds@.len() - i,
    {
        proof {
            assert(cv.skip(i as int)[0] == cv[i as int]);
            assert(cv.skip(i as int).skip(1) =~= cv.skip(i + 1));
            assert(cmd_bounded(cv[i as int]));
        }
        let ghost opos = pos;
        let ghost ospeed = speed;
        let ghost ocur = cur;
        let ghost oacc = times@.map_values(|t: i64| t as int);
        match &cmds[i] {
            Command::MoveTo { end } => {
                let l = seg_length(pos, *end);
                cur = sat_add_time(cur, motion_time_exec(l, speed));
                pos = *end;
            },
            Command::MoveAndExtrude { start, end, .. } => {
                let l = seg_length(*start, *end);
                cur = sat_add_time(cur, motion_time_exec(l, speed));
                pos = *end;
            },
            Command::Arc { start, end, .. } => {
                let l = seg_length(*start, *end);
                cur = sat_add_time(cur, motion_time_exec(l, speed));
                pos = *end;
            },
            Command::SetState { new_state } => {
                match new_state.movement_speed {
                    Some(v) => {
                        speed = v;
                    },
                    None => {},
                }
            },
            Command::Delay { msec } => {
                cur = sat_add_time(
                    cur,
                    if *msec > i64::MAX as u64 {
                        i64::MAX as i128
                    } else {
                        *msec as i128
                    },
                );
            },
            Command::LayerChange { .. } => {
                times.push(cur);
                cur = 0;
            },
            _ => {},
        }
        proof {
            assert(times@.map_values(|t: i64| t as int) =~= (if cv[i as int] is LayerChange {
                oacc.push(ocur as int)
            } else {
                oacc
            }));
            assert(window_times_walk(cv.skip(i as int), opos, ospeed as int, ocur as int, oacc)
                == window_times_walk(
                cv.skip(i + 1),
                pos,
                speed as int,
                cur as int,
                times@.map_values(|t: i64| t as int),
            ));
        }
        i = i + 1;
    }
    proof {
        assert(cv.skip(cv.len() as int) =~= Seq::<CommandV>::empty());
    }
    times.push(cur);
    proof {
        assert(times@.map_values(|t: i64| t as int) =~= window_times_of(cv));
    }
    times
}

/// Scales a non-negative speed by `num / den` with the clamping the
/// slow-down pass applies.
fn scale_speed(v: i64, num: i64, den: i64, min_speed: i64) -> (r: i64)
    requires
        0 <= num <= den,
        den > 0,
        v >= 0,
    ensures
        r == scale_clamped(v as int, num as int, den as int, min_speed as int),
{
    proof {
        assert((v as int) * (num as int) >= 0 && (v as int) * (num as int)
            <= 85070591730234615865843651857942052864) by (nonlinear_arith)
            requires
                0 <= v <= 9223372036854775807,
                0 <= num <= 9223372036854775807,
        ;
        vstd::arithmetic::mul::lemma_mul_inequality(num as int, den as int, v as int);
        assert((v as int) * (num as int) == (num as int) * (v as int)) by (nonlinear_arith);
        assert((v as int) * (den as int) == (den as int) * (v as int)) by (nonlinear_arith);
        vstd::arithmetic::div_mod::lemma_div_is_ordered(
            (v as int) * (num as int),
            (v as int) * (den as int),
            den as int,
        );
        vstd::arithmetic::div_mod::lemma_div_by_multiple(v as int, den as int);
        vstd::arithmetic::div_mod::lemma_div_is_ordered(0, (v as int) * (num as int), den as int);
    }
    let p: u128 = (v as u128) * (num as u128);
    let sc: i64 = (p / (den as u128)) as i64;
    let lo: i64 = if v <= min_speed {
        v
    } else {
        min_speed
    };
    if sc >= lo {
        sc
    } else {
        lo
    }
}

/// The per-layer slow-down pass: a layer window whose print time falls
/// below the fan's threshold has every set movement speed scaled by that
/// window's `time / threshold` ratio, clamped so no speed drops below the
/// minimum print speed nor below a speed already under it; other windows
/// and a non-positive threshold change nothing.
pub fn slow_down_layers(cmds: &mut Vec<Command>, fan: &FanSettings)
    requires
        cmds_bounded(cmds_view(old(cmds)@)),
    ensures
        final(cmds)@.len() == old(cmds)@.len(),
        fan.slow_down_threshold <= 0 ==> cmds_view(final(cmds)@) == cmds_view(old(cmds)@),
        fan.slow_down_threshold > 0 ==> forall|i: int|
            0 <= i < old(cmds)@.len() ==> slowdown_rel(
                #[trigger] cmds_view(old(cmds)@)[i],
                cmds_view(final(cmds)@)[i],
                win_num(
                    window_times_of(cmds_view(old(cmds)@)),
                    window_of(cmds_view(old(cmds)@), i),
                    fan.slow_down_threshold as int,
                ),
                fan.slow_down_threshold as int,
                fan.min_print_speed as int,
            ),
{
    let ghost orig = cmds_view(cmds@);
    if fan.slow_down_threshold <= 0 {
        return ;
    }
    let times = window_times(cmds);
    let ghost tspec = times@.map_values(|t: i64| t as int);
    let den: i64 = fan.slow_down_threshold;
    let mut result: Vec<Command> = Vec::new();
    let mut w: usize = 0;
    let mut i: usize = 0;
    proof {
        assert(orig.take(0) =~= Seq::<CommandV>::empty());
    }
    while i < cmds.len()
        invariant
            i <= cmds@.len(),
            orig == cmds_view(cmds@),
            tspec == window_times_of(orig),
            tspec == times@.map_values(|t: i64| t as int),
            den == fan.slow_down_threshold,
            den > 0,
            result@.len() == i,
            w <= i,
            w as int == crate::plotter::count_layer_changes(orig.take(i as int)),
            forall|q: int|
                0 <= q < i ==> slowdown_rel(
                    #[trigger] orig[q],
                    cmds_view(result@)[q],
                    win_num(tspec, window_of(orig, q), den as int),
                    den as int,
                    fan.min_print_speed as int,
                ),
        decreases cmds@.len() - i,
    {
        let t: i64 = if w < times.len() {
            times[w]
        } else {
            den
        };
        let num: i64 = if 0 <= t && t < den {
            t
        } else {
            den
        };
        proof {
            assert(num as int == win_num(tspec, w as int, den as int));
            assert(window_of(orig, i as int) == w as int);
        }
        let ghost pre_result = result@;
        match &cmds[i] {
            Command::SetState { new_state } => {
                let ns = match new_state.movement_speed {
                    Some(v) => {
                        let nv = if v >= 0 {
                            scale_speed(v, num, den, fan.min_print_speed)
                        } else {
                            v
                        };
                        StateChange {
                            extruder_temp: new_state.extruder_temp,
                            bed_temp: new_state.bed_temp,
                            movement_speed: Some(nv),
                            acceleration: new_state.acceleration,
                            fan_speed: new_state.fan_speed,
                            aux_fan_speed: new_state.aux_fan_speed,
                            retract: crate::commands::copy_retraction(&new_state.retract),
                        }
                    },
                    None => crate::commands::copy_state_change(new_state),
                };
                let c = Command::SetState { new_state: ns };
                proof {
                    crate::optimizer::lemma_cmds_view_push(pre_result, c);
                }
                result.push(c);
            },
            _ => {
                let c = crate::commands::copy_command(&cmds[i]);
                proof {
                    crate::optimizer::lemma_cmds_view_push(pre_result, c);
                }
                result.push(c);
            },
        }
        let is_layer_change: bool = matches!(&cmds[i], Command::LayerChange { .. });
        proof {
            assert(orig[i as int] == cmds@[i as int]@);
            crate::plotter::lemma_motions_push(
                orig.take(i as int),
                orig[i as int],
                Point2 { x: 0, y: 0 },
            );
            crate::plotter::lemma_motions_single(orig[i as int], Point2 { x: 0, y: 0 });
            assert(orig.take(i + 1) =~= orig.take(i as int).push(orig[i as int]));
            assert forall|q: int|
                0 <= q < i + 1 implies slowdown_rel(
                #[trigger] orig[q],
                cmds_view(result@)[q],
                win_num(tspec, window_of(orig, q), den as int),
                den as int,
                fan.min_print_speed as int,
            ) by {
                if q < i {
                    assert(cmds_view(result@)[q] == cmds_view(pre_result)[q]);
                }
            }
        }
        if is_layer_change {
            w = w + 1;
        }
        i = i + 1;
    }
    proof {
        assert(orig.take(orig.len() as int) =~= orig);
    }
    *cmds = result;
}

} // verus!
