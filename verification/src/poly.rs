//! Polygon algebra on fixed-point loops: boolean overlays carried by an
//! outside integer-overlay engine behind trusted wrappers, and the helpers
//! that turn region outlines into printable chains.
//!
//! A region is a list of loops (`Vec<Vec<Point2>>`); the engine's results
//! come back grouped into shapes (an outer boundary and its holes), which
//! verified code flattens back into a loop list.

use vstd::prelude::*;

use crate::commands::{pt_bounded, Move, MoveChain, MoveType, Point2};
use crate::order::{chains_view, MoveChainV};

verus! {

/// The loops of a region, as sequences of points.
pub open spec fn loops_view(v: Seq<Vec<Point2>>) -> Seq<Seq<Point2>> {
    v.map_values(|l: Vec<Point2>| l@)
}

/// The shapes of an overlay result, as sequences of loops.
pub open spec fn shapes_view(v: Seq<Vec<Vec<Point2>>>) -> Seq<Seq<Seq<Point2>>> {
    v.map_values(|s: Vec<Vec<Point2>>| loops_view(s@))
}

/// True when every point of every loop is in the exact-arithmetic range,
/// well inside the overlay engine's documented coordinate bound.
pub open spec fn loops_bounded(a: Seq<Seq<Point2>>) -> bool {
    forall|i: int, p: int|
        0 <= i < a.len() && 0 <= p < a[i].len() ==> pt_bounded(#[trigger] a[i][p])
}

/// Decides whether every point of every loop is in the exact-arithmetic
/// range.
pub fn loops_all_bounded(v: &Vec<Vec<Point2>>) -> (r: bool)
    ensures
        r == loops_bounded(loops_view(v@)),
{
    let ghost lv = loops_view(v@);
    let mut i: usize = 0;
    while i < v.len()
        invariant
            i <= v@.len(),
            lv == loops_view(v@),
            forall|q: int, p: int|
                0 <= q < i && 0 <= p < lv[q].len() ==> pt_bounded(#[trigger] lv[q][p]),
        decreases v@.len() - i,
    {
        let l = &v[i];
        proof {
            assert(lv[i as int] == v@[i as int]@);
        }
        let mut p: usize = 0;
        while p < l.len()
            invariant
                p <= l@.len(),
                i < v@.len(),
                l == v@[i as int],
                lv == loops_view(v@),
                forall|w: int| 0 <= w < p ==> pt_bounded(#[trigger] lv[i as int][w]),
            decreases l@.len() - p,
        {
            let pt = l[p];
            if !(-crate::commands::MAX_COORD <= pt.x && pt.x <= crate::commands::MAX_COORD
                && -crate::commands::MAX_COORD <= pt.y && pt.y <= crate::commands::MAX_COORD) {
                proof {
                    assert(!pt_bounded(lv[i as int][p as int]));
                }
                return false;
            }
            p = p + 1;
        }
        i = i + 1;
    }
    true
}

/// What the overlay engine returns for the intersection of two regions; a
/// function of the inputs alone.
pub uninterp spec fn poly_intersection_of(a: Seq<Seq<Point2>>, b: Seq<Seq<Point2>>) -> Seq<
    Seq<Seq<Point2>>,
>;

/// What the overlay engine returns for the difference of two regions; a
/// function of the inputs alone.
pub uninterp spec fn poly_difference_of(a: Seq<Seq<Point2>>, b: Seq<Seq<Point2>>) -> Seq<
    Seq<Seq<Point2>>,
>;

/// Relies on the integer boolean overlay of i_overlay
/// (`Overlay::overlay` with the intersect rule, non-zero filling): the body
/// converts the loops to the engine's integer paths and the resulting
/// shapes back, point for point.  The engine documents that coordinates
/// must stay within a quarter of the integer range and does not check at
/// run time; the precondition keeps inputs well inside it.
#[verifier::external_body]
fn poly_intersection(a: &Vec<Vec<Point2>>, b: &Vec<Vec<Point2>>) -> (r: Vec<Vec<Vec<Point2>>>)
    requires
        loops_bounded(loops_view(a@)),
        loops_bounded(loops_view(b@)),
    ensures
        shapes_view(r@) == poly_intersection_of(loops_view(a@), loops_view(b@)),
{
    let conv = |l: &Vec<Point2>|
        l.iter().map(|p| i_overlay::i_float::int::point::IntPoint::new(p.x, p.y)).collect();
    let subj: Vec<Vec<_>> = a.iter().map(conv).collect();
    let clip: Vec<_> = b.iter().map(conv).collect();
    i_overlay::core::overlay::Overlay::from_subj_and_clip(&subj, &clip).overlay(
        i_overlay::core::overlay_rule::OverlayRule::Intersect,
        i_overlay::core::fill_rule::FillRule::NonZero,
    ).into_iter().map(
        |s| s.into_iter().map(|c| c.into_iter().map(|p| Point2 { x: p.x, y: p.y }).collect()).collect(),
    ).collect()
}

/// Relies on the integer boolean overlay of i_overlay
/// (`Overlay::overlay` with the difference rule, non-zero filling): the
/// body converts the loops to the engine's integer paths and the resulting
/// shapes back, point for point.  The engine documents that coordinates
/// must stay within a quarter of the integer range and does not check at
/// run time; the precondition keeps inputs well inside it.
#[verifier::external_body]
fn poly_difference(a: &Vec<Vec<Point2>>, b: &Vec<Vec<Point2>>) -> (r: Vec<Vec<Vec<Point2>>>)
    requires
        loops_bounded(loops_view(a@)),
        loops_bounded(loops_view(b@)),
    ensures
        shapes_view(r@) == poly_difference_of(loops_view(a@), loops_view(b@)),
{
    let conv = |l: &Vec<Point2>|
        l.iter().map(|p| i_overlay::i_float::int::point::IntPoint::new(p.x, p.y)).collect();
    let subj: Vec<Vec<_>> = a.iter().map(conv).collect();
    let clip: Vec<_> = b.iter().map(conv).collect();
    i_overlay::core::overlay::Overlay::from_subj_and_clip(&subj, &clip).overlay(
        i_overlay::core::overlay_rule::OverlayRule::Difference,
        i_overlay::core::fill_rule::FillRule::NonZero,
    ).into_iter().map(
        |s| s.into_iter().map(|c| c.into_iter().map(|p| Point2 { x: p.x, y: p.y }).collect()).collect(),
    ).collect()
}

/// What the outline engine returns when a region's loops are offset by
/// `delta` units (negative shrinks); a function of the inputs alone.
pub uninterp spec fn poly_offset_of(a: Seq<Seq<Point2>>, delta: i64) -> Seq<Seq<Seq<Point2>>>;

/// The verdict of the outline engine's range check on an offset: whether
/// the region's bounds, padded by the offset's joins, stay in its safe
/// coordinate range; a function of the inputs alone.
pub uninterp spec fn poly_offset_valid(a: Seq<Seq<Point2>>, delta: i64) -> bool;

/// Relies on `IntOutlineOffset::validate_outline` of i_overlay: the
/// engine's conservative range check for an outline offset, which passes
/// exactly when the input's padded bounds stay in its safe range; the body
/// converts the loops to the engine's integer paths, nothing more.
#[verifier::external_body]
fn poly_validate(a: &Vec<Vec<Point2>>, delta: i64) -> (r: bool)
    requires
        loops_bounded(loops_view(a@)),
        -crate::commands::MAX_COORD <= delta <= crate::commands::MAX_COORD,
    ensures
        r == poly_offset_valid(loops_view(a@), delta),
{
    let conv = |l: &Vec<Point2>|
        l.iter().map(|p| i_overlay::i_float::int::point::IntPoint::new(p.x, p.y)).collect();
    let subj: Vec<Vec<_>> = a.iter().map(conv).collect();
    let style = i_overlay::mesh::int::style::IntOutlineStyle::new(delta);
    i_overlay::mesh::int::outline::offset::IntOutlineOffset::validate_outline(&subj, &style)
        .is_ok()
}

/// Relies on `IntOutlineOffset::outline` of i_overlay: the integer outline
/// offset with bevel joins, which its source always returns `Ok` from; the
/// body converts the loops to the engine's integer paths and the resulting
/// shapes back, point for point.  The engine documents that coordinates
/// must stay within a quarter of the integer range and does not check at
/// run time; the preconditions keep inputs and the offset well inside it,
/// and callers run the range check first.
#[verifier::external_body]
fn poly_offset(a: &Vec<Vec<Point2>>, delta: i64) -> (r: Vec<Vec<Vec<Point2>>>)
    requires
        loops_bounded(loops_view(a@)),
        -crate::commands::MAX_COORD <= delta <= crate::commands::MAX_COORD,
        poly_offset_valid(loops_view(a@), delta),
    ensures
        shapes_view(r@) == poly_offset_of(loops_view(a@), delta),
{
    let conv = |l: &Vec<Point2>|
        l.iter().map(|p| i_overlay::i_float::int::point::IntPoint::new(p.x, p.y)).collect();
    let subj: Vec<Vec<_>> = a.iter().map(conv).collect();
    let style = i_overlay::mesh::int::style::IntOutlineStyle::new(delta);
    let shapes = i_overlay::mesh::int::outline::offset::IntOutlineOffset::outline(&subj, &style)
        .unwrap_or_default();
    shapes.into_iter().map(
        |s| s.into_iter().map(|c| c.into_iter().map(|p| Point2 { x: p.x, y: p.y }).collect()).collect(),
    ).collect()
}

/// The intersection of two regions: the overlay engine's result,
/// flattened into one loop list; an empty region when either input leaves
/// the exact-arithmetic range the engine is called within.
pub open spec fn intersection_checked(a: Seq<Seq<Point2>>, b: Seq<Seq<Point2>>) -> Seq<
    Seq<Point2>,
> {
    if loops_bounded(a) && loops_bounded(b) {
        flatten_shapes(poly_intersection_of(a, b))
    } else {
        Seq::empty()
    }
}

/// The difference of two regions: the overlay engine's result, flattened
/// into one loop list; an empty region when either input leaves the
/// exact-arithmetic range the engine is called within.
pub open spec fn difference_checked(a: Seq<Seq<Point2>>, b: Seq<Seq<Point2>>) -> Seq<
    Seq<Point2>,
> {
    if loops_bounded(a) && loops_bounded(b) {
        flatten_shapes(poly_difference_of(a, b))
    } else {
        Seq::empty()
    }
}

/// A region offset by `delta` units: the outline engine's result,
/// flattened; nothing when the input or offset leaves the exact-arithmetic
/// range or the engine's own range check refuses the padded bounds.
pub open spec fn offset_checked(a: Seq<Seq<Point2>>, delta: i64) -> Option<Seq<Seq<Point2>>> {
    if loops_bounded(a) && -crate::commands::MAX_COORD <= delta <= crate::commands::MAX_COORD {
        if poly_offset_valid(a, delta) {
            Some(flatten_shapes(poly_offset_of(a, delta)))
        } else {
            None
        }
    } else {
        None
    }
}

/// Intersects two regions, checking the engine's range first.
pub fn region_intersection(a: &Vec<Vec<Point2>>, b: &Vec<Vec<Point2>>) -> (r: Vec<Vec<Point2>>)
    ensures
        loops_view(r@) == intersection_checked(loops_view(a@), loops_view(b@)),
{
    if loops_all_bounded(a) && loops_all_bounded(b) {
        flatten_result(poly_intersection(a, b))
    } else {
        let r: Vec<Vec<Point2>> = Vec::new();
        proof {
            assert(loops_view(r@) =~= Seq::<Seq<Point2>>::empty());
        }
        r
    }
}

/// Subtracts one region from another, checking the engine's range first.
pub fn region_difference(a: &Vec<Vec<Point2>>, b: &Vec<Vec<Point2>>) -> (r: Vec<Vec<Point2>>)
    ensures
        loops_view(r@) == difference_checked(loops_view(a@), loops_view(b@)),
{
    if loops_all_bounded(a) && loops_all_bounded(b) {
        flatten_result(poly_difference(a, b))
    } else {
        let r: Vec<Vec<Point2>> = Vec::new();
        proof {
            assert(loops_view(r@) =~= Seq::<Seq<Point2>>::empty());
        }
        r
    }
}

/// Offsets a region, checking the engine's range first.
pub fn region_offset(a: &Vec<Vec<Point2>>, delta: i64) -> (r: Option<Vec<Vec<Point2>>>)
    ensures
        (match r {
            Some(v) => offset_checked(loops_view(a@), delta) == Some(loops_view(v@)),
            None => offset_checked(loops_view(a@), delta) is None,
        }),
{
    if loops_all_bounded(a) && -crate::commands::MAX_COORD <= delta && delta
        <= crate::commands::MAX_COORD {
        if poly_validate(a, delta) {
            Some(flatten_result(poly_offset(a, delta)))
        } else {
            None
        }
    } else {
        None
    }
}

/// The loops of a shape list, in order.
pub open spec fn flatten_shapes(s: Seq<Seq<Seq<Point2>>>) -> Seq<Seq<Point2>>
    decreases s.len(),
{
    if s.len() == 0 {
        Seq::empty()
    } else {
        flatten_shapes(s.drop_last()) + s.last()
    }
}

/// Flattens an overlay result into one loop list.
pub fn flatten_result(shapes: Vec<Vec<Vec<Point2>>>) -> (r: Vec<Vec<Point2>>)
    ensures
        loops_view(r@) == flatten_shapes(shapes_view(shapes@)),
{
    let ghost sv = shapes_view(shapes@);
    let mut r: Vec<Vec<Point2>> = Vec::new();
    let mut remaining = shapes;
    let ghost total = remaining@.len();
    while remaining.len() > 0
        invariant
            sv.len() == total,
            remaining@.len() <= total,
            forall|q: int|
                0 <= q < remaining@.len() ==> #[trigger] shapes_view(remaining@)[q] == sv[q + (
                total - remaining@.len())],
            loops_view(r@) == flatten_shapes(sv.take((total - remaining@.len()) as int)),
        decreases remaining@.len(),
    {
        let ghost done = total - remaining@.len();
        let ghost pre_rem = remaining@;
        let mut shape = remaining.remove(0);
        proof {
            assert(forall|q: int|
                0 <= q < remaining@.len() ==> remaining@[q] == pre_rem[q + 1]);
            assert(shapes_view(pre_rem)[0] == pre_rem[0]@.map_values(|l: Vec<Point2>| l@));
            assert forall|q: int|
                0 <= q < remaining@.len() implies #[trigger] shapes_view(remaining@)[q] == sv[q
                + done + 1] by {
                assert(shapes_view(remaining@)[q] == remaining@[q]@.map_values(
                    |l: Vec<Point2>| l@,
                ));
                assert(shapes_view(pre_rem)[q + 1] == pre_rem[q + 1]@.map_values(
                    |l: Vec<Point2>| l@,
                ));
            }
        }
        let ghost pre_r = r@;
        let ghost shape_vec = shape@;
        let ghost shape_v = loops_view(shape@);
        let mut shape_m = shape;
        r.append(&mut shape_m);
        proof {
            assert(r@ == pre_r + shape_vec);
            assert(sv.take((done + 1) as int).drop_last() =~= sv.take(done as int));
            assert(sv.take((done + 1) as int).last() == sv[done as int]);
            assert(sv[done as int] == shape_v);
            assert(loops_view(r@) =~= flatten_shapes(sv.take(done as int)) + shape_v) by {
                assert forall|q: int| 0 <= q < r@.len() implies loops_view(r@)[q] == (
                flatten_shapes(sv.take(done as int)) + shape_v)[q] by {
                    if q < pre_r.len() {
                        assert(r@[q] == pre_r[q]);
                        assert(loops_view(pre_r)[q] == pre_r[q]@);
                    } else {
                        assert(r@[q] == shape_vec[q - pre_r.len()]);
                    }
                }
            }
        }
    }
    proof {
        assert(sv.take(total as int) =~= sv);
    }
    r
}

/// The chain that traces one loop: it starts at the loop's first point,
/// visits every further point, and returns to the start when the loop does
/// not already close itself.
pub open spec fn loop_chain(l: Seq<Point2>, width: i64, move_type: MoveType) -> MoveChainV {
    let closed = if l.last() == l[0] {
        l
    } else {
        l.push(l[0])
    };
    MoveChainV {
        start_point: l[0],
        moves: closed.skip(1).map_values(
            |p: Point2| Move { end: p, width, move_type },
        ),
    }
}

/// The chains that trace a region's loops, one per loop of two or more
/// points.
pub open spec fn loops_chains(ls: Seq<Seq<Point2>>, width: i64, move_type: MoveType) -> Seq<
    MoveChainV,
>
    decreases ls.len(),
{
    if ls.len() == 0 {
        Seq::empty()
    } else {
        let pre = loops_chains(ls.drop_last(), width, move_type);
        if ls.last().len() > 1 {
            pre.push(loop_chain(ls.last(), width, move_type))
        } else {
            pre
        }
    }
}

/// Builds the chains that trace a region's loops.
pub fn loops_to_chains(loops: &Vec<Vec<Point2>>, width: i64, move_type: MoveType) -> (r: Vec<
    MoveChain,
>)
    ensures
        chains_view(r@) == loops_chains(loops_view(loops@), width, move_type),
{
    let ghost lv = loops_view(loops@);
    let mut r: Vec<MoveChain> = Vec::new();
    let mut li: usize = 0;
    while li < loops.len()
        invariant
            li <= loops@.len(),
            lv == loops_view(loops@),
            chains_view(r@) == loops_chains(lv.take(li as int), width, move_type),
        decreases loops@.len() - li,
    {
        proof {
            assert(lv.take(li + 1).drop_last() =~= lv.take(li as int));
            assert(lv.take(li + 1).last() == lv[li as int]);
            assert(lv[li as int] == loops@[li as int]@);
        }
        let loop_pts = &loops[li];
        if loop_pts.len() > 1 {
            let start_point = loop_pts[0];
            let mut moves: Vec<Move> = Vec::new();
            let mut pi: usize = 1;
            while pi < loop_pts.len()
                invariant
                    1 <= pi <= loop_pts@.len(),
                    loop_pts@.len() > 1,
                    moves@ == loop_pts@.subrange(1, pi as int).map_values(
                        (|p: Point2| Move { end: p, width, move_type }),
                    ),
                decreases loop_pts@.len() - pi,
            {
                moves.push(
                    Move { end: loop_pts[pi], width, move_type },
                );
                proof {
                    assert(moves@ =~= loop_pts@.subrange(1, pi + 1).map_values(
                        (|p: Point2| Move { end: p, width, move_type }),
                    ));
                }
                pi = pi + 1;
            }
            if !(loop_pts[loop_pts.len() - 1] == loop_pts[0]) {
                moves.push(
                    Move { end: loop_pts[0], width, move_type },
                );
            }
            let c = MoveChain { start_point, moves };
            proof {
                let l = lv[li as int];
                let closed = if l.last() == l[0] {
                    l
                } else {
                    l.push(l[0])
                };
                assert(loop_pts@.subrange(1, loop_pts@.len() as int) =~= loop_pts@.skip(1));
                assert(c@.moves =~= closed.skip(1).map_values(
                    (|p: Point2| Move { end: p, width, move_type }),
                )) by {
                    if l.last() == l[0] {
                        assert(closed.skip(1) =~= l.skip(1));
                    } else {
                        assert(closed.skip(1) =~= l.skip(1).push(l[0]));
                    }
                }
                assert(c@ == loop_chain(l, width, move_type));
                crate::order::lemma_chains_view_push(r@, c);
            }
            r.push(c);
            proof {
                assert(chains_view(r@) == loops_chains(lv.take(li + 1), width, move_type));
            }
        } else {
            proof {
                assert(chains_view(r@) == loops_chains(lv.take(li + 1), width, move_type));
            }
        }
        li = li + 1;
    }
    proof {
        assert(lv.take(lv.len() as int) =~= lv);
    }
    r
}

} // verus!
