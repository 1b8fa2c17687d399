//! 3D vertices, indexed triangles, the sweep order, placement translations,
//! and the exact fixed-point plane intersection used by the slicer.

use vstd::arithmetic::div_mod::{lemma_div_by_multiple, lemma_div_is_ordered};
use vstd::arithmetic::mul::lemma_mul_inequality;
use vstd::prelude::*;

use crate::commands::{pt_bounded, Point2, MAX_COORD};

verus! {

/// A 3D point in fixed-point units.
#[derive(Default, Clone, Copy, Debug, PartialEq, Eq, Structural, Hash)]
pub struct Vertex {
    /// X coordinate in units.
    pub x: i64,
    /// Y coordinate in units.
    pub y: i64,
    /// Z coordinate in units.
    pub z: i64,
}

/// Three indices into a mesh's vertex array.
#[derive(Default, Clone, Copy, Debug, PartialEq, Eq)]
pub struct IndexedTriangle {
    /// The triangle's vertex indices.
    pub verts: [usize; 3],
}

/// Two indices into a mesh's vertex array.
#[derive(Default, Clone, Copy, Debug, PartialEq, Eq)]
pub struct IndexedLine {
    /// The line's vertex indices.
    pub verts: [usize; 2],
}

/// The sweep's total order on vertices: lexicographic by `(z, y, x)`.
pub open spec fn vert_lt(a: Vertex, b: Vertex) -> bool {
    if a.z != b.z {
        a.z < b.z
    } else if a.y != b.y {
        a.y < b.y
    } else {
        a.x < b.x
    }
}

/// Decides the sweep order.
pub fn vertex_less(a: &Vertex, b: &Vertex) -> (r: bool)
    ensures
        r == vert_lt(*a, *b),
{
    if a.z != b.z {
        a.z < b.z
    } else if a.y != b.y {
        a.y < b.y
    } else {
        a.x < b.x
    }
}

/// True when all three coordinates are small enough for exact intersection
/// arithmetic.
pub open spec fn vert_bounded(v: Vertex) -> bool {
    &&& -MAX_COORD <= v.x <= MAX_COORD
    &&& -MAX_COORD <= v.y <= MAX_COORD
    &&& -MAX_COORD <= v.z <= MAX_COORD
}

/// A rigid placement of a model on the bed: a translation.  Rotation and
/// scaling are resolved when a model is loaded; the core moves meshes by
/// whole-unit offsets only.
#[derive(Default, Clone, Copy, Debug, PartialEq, Eq, Structural)]
pub struct Transform {
    /// Offset along X, in units.
    pub dx: i64,
    /// Offset along Y, in units.
    pub dy: i64,
    /// Offset along Z, in units.
    pub dz: i64,
}

impl Transform {
    /// The translation by `(x, y, z)`.
    pub fn new_translation_transform(x: i64, y: i64, z: i64) -> (r: Transform)
        ensures
            r == (Transform { dx: x, dy: y, dz: z }),
    {
        Transform { dx: x, dy: y, dz: z }
    }

    /// Applies the translation to a vertex; `None` when a coordinate would
    /// leave the machine's integer range.
    pub fn apply(&self, v: &Vertex) -> (r: Option<Vertex>)
        ensures
            (match r {
                Some(w) => w.x == v.x + self.dx && w.y == v.y + self.dy && w.z == v.z + self.dz,
                None => v.x + self.dx > i64::MAX || v.x + self.dx < i64::MIN || v.y + self.dy
                    > i64::MAX || v.y + self.dy < i64::MIN || v.z + self.dz > i64::MAX || v.z
                    + self.dz < i64::MIN,
            }),
    {
        let x: i128 = v.x as i128 + self.dx as i128;
        let y: i128 = v.y as i128 + self.dy as i128;
        let z: i128 = v.z as i128 + self.dz as i128;
        if x <= i64::MAX as i128 && x >= i64::MIN as i128 && y <= i64::MAX as i128 && y
            >= i64::MIN as i128 && z <= i64::MAX as i128 && z >= i64::MIN as i128 {
            Some(Vertex { x: x as i64, y: y as i64, z: z as i64 })
        } else {
            None
        }
    }
}

/// Whether three points turn left, turn right, or lie on one line.
#[derive(Clone, Copy, Debug, PartialEq, Eq, Structural)]
pub enum Orientation {
    /// The three points lie on one line.
    Linear,
    /// The points turn to the left: counterclockwise.
    Left,
    /// The points turn to the right: clockwise.
    Right,
}

/// The orientation of `p`, `q`, `r` by the sign of the cross product.
pub open spec fn orientation_spec(p: Point2, q: Point2, r: Point2) -> Orientation {
    let left_val = (q.x - p.x) * (r.y - p.y);
    let right_val = (q.y - p.y) * (r.x - p.x);
    if left_val == right_val {
        Orientation::Linear
    } else if left_val > right_val {
        Orientation::Left
    } else {
        Orientation::Right
    }
}

/// Decides the orientation of three points, exactly.
pub fn orientation(p: &Point2, q: &Point2, r: &Point2) -> (res: Orientation)
    requires
        pt_bounded(*p),
        pt_bounded(*q),
        pt_bounded(*r),
    ensures
        res == orientation_spec(*p, *q, *r),
{
    let ax: i128 = q.x as i128 - p.x as i128;
    let ay: i128 = q.y as i128 - p.y as i128;
    let bx: i128 = r.x as i128 - p.x as i128;
    let by: i128 = r.y as i128 - p.y as i128;
    proof {
        let b: int = 2 * (MAX_COORD as int);
        assert(ax * by <= b * b && ax * by >= -(b * b) && ay * bx <= b * b && ay * bx >= -(b * b))
            by (nonlinear_arith)
            requires
                -b <= ax <= b,
                -b <= ay <= b,
                -b <= bx <= b,
                -b <= by <= b,
        ;
    }
    let left_val: i128 = ax * by;
    let right_val: i128 = ay * bx;
    if left_val == right_val {
        Orientation::Linear
    } else if left_val > right_val {
        Orientation::Left
    } else {
        Orientation::Right
    }
}

/// `dx` scaled by the ratio `num / den`, rounded toward zero.
pub open spec fn mul_div_trunc(dx: int, num: int, den: int) -> int {
    if dx >= 0 {
        (dx * num) / den
    } else {
        -(((-dx) * num) / den)
    }
}

/// Scaling by a ratio at most one cannot grow the magnitude.
proof fn lemma_mul_div_trunc_bound(m: int, num: int, den: int)
    requires
        m >= 0,
        den > 0,
        0 <= num <= den,
    ensures
        0 <= (m * num) / den <= m,
{
    lemma_mul_inequality(num, den, m);
    assert(m * num == num * m) by (nonlinear_arith);
    assert(m * den == den * m) by (nonlinear_arith);
    lemma_div_is_ordered(m * num, m * den, den);
    lemma_div_by_multiple(m, den);
    assert(m * num >= 0) by (nonlinear_arith)
        requires
            m >= 0,
            num >= 0,
    ;
    assert((m * num) / den >= 0);
}

/// Computes `dx * num / den` rounded toward zero, exactly.
fn mul_div_trunc_exec(dx: i64, num: i64, den: i64) -> (r: i64)
    requires
        0 < den <= 2 * MAX_COORD,
        0 <= num <= den,
        -2 * MAX_COORD <= dx <= 2 * MAX_COORD,
    ensures
        r == mul_div_trunc(dx as int, num as int, den as int),
        -2 * MAX_COORD <= r <= 2 * MAX_COORD,
{
    proof {
        lemma_mul_div_trunc_bound(if dx >= 0 { dx as int } else { -(dx as int) }, num as int,
            den as int);
    }
    if dx >= 0 {
        let a: u128 = dx as u128;
        let b: u128 = num as u128;
        proof {
            assert(a * b <= 19342813113834066795298816) by (nonlinear_arith)
                requires
                    0 <= a <= 2199023255552,
                    0 <= b <= 2199023255552,
            ;
        }
        let mag: u128 = a * b / (den as u128);
        mag as i64
    } else {
        let pos: i128 = -(dx as i128);
        let a: u128 = pos as u128;
        let b: u128 = num as u128;
        proof {
            assert(a * b <= 19342813113834066795298816) by (nonlinear_arith)
                requires
                    0 <= a <= 2199023255552,
                    0 <= b <= 2199023255552,
            ;
        }
        let mag: u128 = a * b / (den as u128);
        -(mag as i64)
    }
}

/// The point where the segment from `a` to `b` crosses the plane at height
/// `z`: each coordinate is interpolated by the ratio `(z - a.z) / (b.z -
/// a.z)`, rounded toward the segment's lower endpoint.
pub open spec fn line_z_point(z: int, a: Vertex, b: Vertex) -> Point2 {
    Point2 {
        x: (a.x + mul_div_trunc(b.x - a.x, z - a.z, b.z - a.z)) as i64,
        y: (a.y + mul_div_trunc(b.y - a.y, z - a.z, b.z - a.z)) as i64,
    }
}

/// Computes the plane intersection of a segment, exactly.
pub fn line_z_intersection(z: i64, a: &Vertex, b: &Vertex) -> (p: Point2)
    requires
        vert_bounded(*a),
        vert_bounded(*b),
        a.z < b.z,
        a.z <= z <= b.z,
    ensures
        p == line_z_point(z as int, *a, *b),
        pt_bounded(p),
{
    let den: i64 = b.z - a.z;
    let num: i64 = z - a.z;
    let sx: i64 = mul_div_trunc_exec(b.x - a.x, num, den);
    let sy: i64 = mul_div_trunc_exec(b.y - a.y, num, den);
    proof {
        lemma_mul_div_trunc_bound(
            if b.x - a.x >= 0 {
                b.x - a.x
            } else {
                -(b.x - a.x)
            },
            num as int,
            den as int,
        );
        lemma_mul_div_trunc_bound(
            if b.y - a.y >= 0 {
                b.y - a.y
            } else {
                -(b.y - a.y)
            },
            num as int,
            den as int,
        );
    }
    Point2 { x: a.x + sx, y: a.y + sy }
}

/// Law: the plane intersection commutes with translation.  Moving both
/// endpoints by `(dx, dy, dz)` and the plane by `dz` moves the crossing
/// point by exactly `(dx, dy)`: a translated mesh slices to translated
/// points, layer for layer.
pub proof fn lemma_line_z_translation(
    z: int,
    a: Vertex,
    b: Vertex,
    t: Transform,
    a2: Vertex,
    b2: Vertex,
)
    requires
        vert_bounded(a),
        vert_bounded(b),
        vert_bounded(a2),
        vert_bounded(b2),
        a.z < b.z,
        a.z <= z <= b.z,
        a2.x == a.x + t.dx && a2.y == a.y + t.dy && a2.z == a.z + t.dz,
        b2.x == b.x + t.dx && b2.y == b.y + t.dy && b2.z == b.z + t.dz,
    ensures
        line_z_point(z + t.dz, a2, b2).x == line_z_point(z, a, b).x + t.dx,
        line_z_point(z + t.dz, a2, b2).y == line_z_point(z, a, b).y + t.dy,
{
    let den = b.z - a.z;
    let num = z - a.z;
    assert(b2.x - a2.x == b.x - a.x);
    assert(b2.y - a2.y == b.y - a.y);
    assert(b2.z - a2.z == b.z - a.z);
    assert((z + t.dz) - a2.z == num);
    lemma_mul_div_trunc_bound(
        if b.x - a.x >= 0 {
            b.x - a.x
        } else {
            -(b.x - a.x)
        },
        num,
        den,
    );
    lemma_mul_div_trunc_bound(
        if b.y - a.y >= 0 {
            b.y - a.y
        } else {
            -(b.y - a.y)
        },
        num,
        den,
    );
}

} // verus!
