//! Cross-layer slice passes built on the polygon overlay: top and bottom
//! solid regions, top-exposed surfaces, and bridging over the layer below.
//! Each pass computes its region exactly in terms of the overlay names and
//! appends the region's outline chains to the slice.

use vstd::prelude::*;

use crate::commands::{MoveType, Point2};
use crate::order::{chains_view, MoveChainV};
use crate::poly::{
    difference_checked, intersection_checked, loops_chains, loops_to_chains, loops_view,
    offset_checked, region_difference, region_intersection, region_offset,
};
use crate::settings::{MovementParameter, Settings};
use crate::slicing::{slices_ordered, Object, Slice};

verus! {

/// The cross-sections of a slice run, as point-loop sequences.
pub open spec fn mains_of(layers: Seq<Slice>) -> Seq<Seq<Seq<Point2>>> {
    layers.map_values(|s: Slice| loops_view(s.main_polygon@))
}

/// Copies a region; the copy is known to equal the original's view.
pub fn copy_loops(v: &Vec<Vec<Point2>>) -> (r: Vec<Vec<Point2>>)
    ensures
        loops_view(r@) == loops_view(v@),
{
    let mut r: Vec<Vec<Point2>> = Vec::new();
    let mut i: usize = 0;
    while i < v.len()
        invariant
            i <= v@.len(),
            r@.len() == i,
            forall|q: int| 0 <= q < i ==> (#[trigger] r@[q])@ == v@[q]@,
        decreases v@.len() - i,
    {
        let src = &v[i];
        let mut l: Vec<Point2> = Vec::new();
        let mut p: usize = 0;
        while p < src.len()
            invariant
                p <= src@.len(),
                l@ == src@.take(p as int),
            decreases src@.len() - p,
        {
            l.push(src[p]);
            proof {
                assert(l@ =~= src@.take(p + 1));
            }
            p = p + 1;
        }
        proof {
            assert(src@.take(src@.len() as int) =~= src@);
        }
        r.push(l);
        i = i + 1;
    }
    proof {
        assert forall|q: int| 0 <= q < v@.len() implies loops_view(r@)[q] == loops_view(
            v@,
        )[q] by {
            assert(loops_view(r@)[q] == r@[q]@);
            assert(loops_view(v@)[q] == v@[q]@);
        }
        assert(loops_view(r@) =~= loops_view(v@));
    }
    r
}

/// The intersection of the cross-sections with indices in `[lo, hi)`,
/// folded left as the overlay engine computes it.
pub open spec fn intersect_range(mains: Seq<Seq<Seq<Point2>>>, lo: int, hi: int) -> Seq<
    Seq<Point2>,
>
    decreases hi - lo,
{
    if hi - lo <= 1 {
        mains[lo]
    } else {
        intersection_checked(intersect_range(mains, lo, hi - 1), mains[hi - 1])
    }
}

/// The region of layer `k` that must print solid, out of `n` layers with
/// the given counts of solid top and bottom layers: boundary layers are
/// solid everywhere; an interior layer is solid where its cross-section is
/// not covered by the intersection of its `bottom` neighbours below and
/// `top` neighbours above; with both counts zero nothing is forced solid.
pub open spec fn solid_region(
    mains: Seq<Seq<Seq<Point2>>>,
    k: int,
    top: int,
    bottom: int,
) -> Seq<Seq<Point2>> {
    let n = mains.len() as int;
    if bottom <= k < n - top {
        if top == 0 && bottom == 0 {
            Seq::empty()
        } else {
            let merged = if bottom > 0 && top > 0 {
                intersection_checked(
                    intersect_range(mains, k + 1, k + 1 + top),
                    intersect_range(mains, k - bottom, k),
                )
            } else if bottom > 0 {
                intersect_range(mains, k - bottom, k)
            } else {
                intersect_range(mains, k + 1, k + 1 + top)
            };
            difference_checked(mains[k], merged)
        }
    } else {
        mains[k]
    }
}

/// Computes each layer's forced-solid region exactly.
fn compute_solid_regions(layers: &Vec<Slice>, top: usize, bottom: usize) -> (r: Vec<
    Vec<Vec<Point2>>,
>)
    ensures
        r@.len() == layers@.len(),
        forall|k: int|
            0 <= k < r@.len() ==> loops_view(#[trigger] r@[k]@) == solid_region(
                mains_of(layers@),
                k,
                top as int,
                bottom as int,
            ),
{
    let ghost mains = mains_of(layers@);
    let n = layers.len();
    let mut regions: Vec<Vec<Vec<Point2>>> = Vec::new();
    let mut k: usize = 0;
    while k < n
        invariant
            k <= n,
            n == layers@.len(),
            mains == mains_of(layers@),
            regions@.len() == k,
            forall|q: int|
                0 <= q < k ==> loops_view(#[trigger] regions@[q]@) == solid_region(
                    mains,
                    q,
                    top as int,
                    bottom as int,
                ),
        decreases n - k,
    {
        proof {
            assert(mains[k as int] == loops_view(layers@[k as int].main_polygon@));
        }
        let interior = k >= bottom && top < n - k;
        let region: Vec<Vec<Point2>> = if interior {
            if top == 0 && bottom == 0 {
                Vec::new()
            } else {
                let below: Option<Vec<Vec<Point2>>> = if bottom > 0 {
                    Some(fold_intersection(layers, k - bottom, k))
                } else {
                    None
                };
                let above: Option<Vec<Vec<Point2>>> = if top > 0 {
                    Some(fold_intersection(layers, k + 1, k + 1 + top))
                } else {
                    None
                };
                let merged: Vec<Vec<Point2>> = match (above, below) {
                    (Some(a), Some(b)) => region_intersection(&a, &b),
                    (Some(a), None) => a,
                    (None, Some(b)) => b,
                    (None, None) => Vec::new(),
                };
                region_difference(&layers[k].main_polygon, &merged)
            }
        } else {
            copy_loops(&layers[k].main_polygon)
        };
        proof {
            assert(loops_view(region@) == solid_region(mains, k as int, top as int, bottom as int));
        }
        regions.push(region);
        k = k + 1;
    }
    regions
}

/// The left fold of intersections over `layers[lo..hi)`, exactly
/// `intersect_range`.
fn fold_intersection(layers: &Vec<Slice>, lo: usize, hi: usize) -> (r: Vec<Vec<Point2>>)
    requires
        lo < hi,
        hi <= layers@.len(),
    ensures
        loops_view(r@) == intersect_range(mains_of(layers@), lo as int, hi as int),
{
    let ghost mains = mains_of(layers@);
    proof {
        assert(mains[lo as int] == loops_view(layers@[lo as int].main_polygon@));
    }
    let mut acc = copy_loops(&layers[lo].main_polygon);
    let mut i: usize = lo + 1;
    while i < hi
        invariant
            lo < i <= hi,
            hi <= layers@.len(),
            mains == mains_of(layers@),
            loops_view(acc@) == intersect_range(mains, lo as int, i as int),
        decreases hi - i,
    {
        proof {
            assert(mains[i as int] == loops_view(layers@[i as int].main_polygon@));
        }
        acc = region_intersection(&acc, &layers[i].main_polygon);
        i = i + 1;
    }
    acc
}

/// The top-and-bottom solids pass: every slice gains chains tracing its
/// forced-solid region, at the solid-infill width; with zero top and
/// bottom counts no slice's chains change.
pub fn top_and_bottom_layers_pass(objects: Vec<Object>, settings: &Settings) -> (r: Vec<Object>)
    ensures
        r@.len() == objects@.len(),
        forall|m: int|
            0 <= m < r@.len() ==> (#[trigger] r@[m]).layers@.len() == objects@[m].layers@.len(),
        forall|m: int, k: int|
            0 <= m < r@.len() && 0 <= k < objects@[m].layers@.len() ==> {
                let old_s = #[trigger] objects@[m].layers@[k];
                let new_s = #[trigger] r@[m].layers@[k];
                &&& new_s.main_polygon@ == old_s.main_polygon@
                &&& new_s.bottom_height == old_s.bottom_height
                &&& new_s.top_height == old_s.top_height
                &&& new_s.layer_index == old_s.layer_index
                &&& chains_view(new_s.chains@) == chains_view(old_s.chains@) + loops_chains(
                    solid_region(
                        mains_of(objects@[m].layers@),
                        k,
                        settings.top_layers as int,
                        settings.bottom_layers as int,
                    ),
                    settings.extrusion_width.solid_infill,
                    MoveType::SolidInfill,
                )
            },
        settings.top_layers == 0 && settings.bottom_layers == 0 ==> forall|m: int, k: int|
            0 <= m < r@.len() && 0 <= k < objects@[m].layers@.len() ==> chains_view(
                (#[trigger] r@[m].layers@[k]).chains@,
            ) == chains_view((#[trigger] objects@[m].layers@[k]).chains@),
        forall|m: int|
            0 <= m < r@.len() ==> slices_ordered((#[trigger] objects@[m]).layers@)
                ==> slices_ordered(r@[m].layers@),
{
    let top = settings.top_layers;
    let bottom = settings.bottom_layers;
    let width = settings.extrusion_width.solid_infill;
    let ghost orig = objects@;
    let mut remaining = objects;
    let mut done: Vec<Object> = Vec::new();
    while remaining.len() > 0
        invariant
            done@.len() + remaining@.len() == orig.len(),
            top == settings.top_layers,
            bottom == settings.bottom_layers,
            width == settings.extrusion_width.solid_infill,
            forall|m: int|
                0 <= m < remaining@.len() ==> #[trigger] remaining@[m] == orig[m + done@.len()],
            forall|m: int|
                0 <= m < done@.len() ==> (#[trigger] done@[m]).layers@.len()
                    == orig[m].layers@.len(),
            forall|m: int, k: int|
                0 <= m < done@.len() && 0 <= k < orig[m].layers@.len() ==> {
                    let old_s = #[trigger] orig[m].layers@[k];
                    let new_s = #[trigger] done@[m].layers@[k];
                    &&& new_s.main_polygon@ == old_s.main_polygon@
                    &&& new_s.bottom_height == old_s.bottom_height
                    &&& new_s.top_height == old_s.top_height
                    &&& new_s.layer_index == old_s.layer_index
                    &&& chains_view(new_s.chains@) == chains_view(old_s.chains@) + loops_chains(
                        solid_region(mains_of(orig[m].layers@), k, top as int, bottom as int),
                        width,
                        MoveType::SolidInfill,
                    )
                },
        decreases remaining@.len(),
    {
        let ghost m = done@.len();
        let object = remaining.remove(0);
        proof {
            assert(object == orig[m as int]);
        }
        let regions = compute_solid_regions(&object.layers, top, bottom);
        let ghost lv = object.layers@;
        let mut layers = object.layers;
        let mut new_layers: Vec<Slice> = Vec::new();
        while layers.len() > 0
            invariant
                new_layers@.len() + layers@.len() == lv.len(),
                regions@.len() == lv.len(),
                top == settings.top_layers,
                bottom == settings.bottom_layers,
                width == settings.extrusion_width.solid_infill,
                forall|q: int|
                    0 <= q < regions@.len() ==> loops_view(#[trigger] regions@[q]@)
                        == solid_region(mains_of(lv), q, top as int, bottom as int),
                forall|q: int| 0 <= q < layers@.len() ==> #[trigger] layers@[q] == lv[q
                    + new_layers@.len()],
                forall|k: int|
                    0 <= k < new_layers@.len() ==> {
                        let old_s = #[trigger] lv[k];
                        let new_s = #[trigger] new_layers@[k];
                        &&& new_s.main_polygon@ == old_s.main_polygon@
                        &&& new_s.bottom_height == old_s.bottom_height
                        &&& new_s.top_height == old_s.top_height
                        &&& new_s.layer_index == old_s.layer_index
                        &&& chains_view(new_s.chains@) == chains_view(old_s.chains@)
                            + loops_chains(
                            solid_region(mains_of(lv), k, top as int, bottom as int),
                            width,
                            MoveType::SolidInfill,
                        )
                    },
            decreases layers@.len(),
        {
            let ghost k = new_layers@.len();
            let idx = new_layers.len();
            let mut s = layers.remove(0);
            proof {
                assert(s == lv[k as int]);
            }
            let mut extra = loops_to_chains(&regions[idx], width, MoveType::SolidInfill);
            let ghost pre_chains = s.chains@;
            let ghost extra_vec = extra@;
            s.chains.append(&mut extra);
            proof {
                assert(s.chains@ == pre_chains + extra_vec);
                assert(chains_view(s.chains@) =~= chains_view(pre_chains) + chains_view(
                    extra_vec,
                )) by {
                    assert forall|q: int| 0 <= q < s.chains@.len() implies chains_view(
                        s.chains@,
                    )[q] == (chains_view(pre_chains) + chains_view(extra_vec))[q] by {
                        assert(chains_view(s.chains@)[q] == s.chains@[q]@);
                        if q < pre_chains.len() {
                            assert(s.chains@[q] == pre_chains[q]);
                        } else {
                            assert(s.chains@[q] == extra_vec[q - pre_chains.len()]);
                        }
                    }
                }
            }
            new_layers.push(s);
        }
        proof {
            assert(new_layers@.len() == lv.len());
            assert(lv == orig[m as int].layers@);
        }
        let ghost pre_done = done@;
        done.push(Object { layers: new_layers });
        proof {
            assert forall|m2: int, k2: int|
                0 <= m2 < done@.len() && 0 <= k2 < orig[m2].layers@.len() implies {
                let old_s = #[trigger] orig[m2].layers@[k2];
                let new_s = #[trigger] done@[m2].layers@[k2];
                &&& new_s.main_polygon@ == old_s.main_polygon@
                &&& new_s.bottom_height == old_s.bottom_height
                &&& new_s.top_height == old_s.top_height
                &&& new_s.layer_index == old_s.layer_index
                &&& chains_view(new_s.chains@) == chains_view(old_s.chains@) + loops_chains(
                    solid_region(mains_of(orig[m2].layers@), k2, top as int, bottom as int),
                    width,
                    MoveType::SolidInfill,
                )
            } by {
                if m2 < m {
                    assert(done@[m2] == pre_done[m2]);
                } else {
                    assert(done@[m2].layers@ == new_layers@);
                }
            }
        }
    }
    proof {
        assert forall|m2: int, k2: int|
            0 <= m2 < done@.len() && 0 <= k2 < orig[m2].layers@.len() && settings.top_layers == 0
                && settings.bottom_layers == 0 implies chains_view(
            (#[trigger] done@[m2].layers@[k2]).chains@,
        ) == chains_view((#[trigger] orig[m2].layers@[k2]).chains@) by {
            lemma_loops_chains_empty(width, MoveType::SolidInfill);
            assert(solid_region(mains_of(orig[m2].layers@), k2, 0, 0) =~= Seq::<
                Seq<Point2>,
            >::empty());
            assert(chains_view(done@[m2].layers@[k2].chains@) =~= chains_view(
                orig[m2].layers@[k2].chains@,
            ));
        }
        assert forall|m2: int|
            0 <= m2 < done@.len() && slices_ordered(orig[m2].layers@) implies slices_ordered(
            done@[m2].layers@,
        ) by {
            let dl = done@[m2].layers@;
            let ol = orig[m2].layers@;
            assert(dl.len() == ol.len());
            assert forall|k2: int| 0 <= k2 < dl.len() implies (#[trigger] dl[k2]).layer_index
                == ol[k2].layer_index && dl[k2].top_height == ol[k2].top_height
                && dl[k2].bottom_height == ol[k2].bottom_height by {
                assert(0 <= m2 < done@.len() && 0 <= k2 < orig[m2].layers@.len());
            }
            assert(slices_ordered(dl)) by {
                assert forall|k2: int| 0 <= k2 < dl.len() implies (#[trigger] dl[k2]).layer_index
                    == k2 && dl[k2].bottom_height >= 0 && dl[k2].top_height
                    > dl[k2].bottom_height by {
                    assert(ol[k2].layer_index == k2 && ol[k2].bottom_height >= 0
                        && ol[k2].top_height > ol[k2].bottom_height);
                }
                assert forall|k2: int| 0 < k2 < dl.len() implies (#[trigger] dl[k2]).top_height
                    >= dl[k2 - 1].top_height && dl[k2].bottom_height == dl[k2
                    - 1].top_height by {
                    assert(ol[k2].top_height >= ol[k2 - 1].top_height && ol[k2].bottom_height
                        == ol[k2 - 1].top_height);
                }
            }
        }
    }
    done
}

/// Which neighbour a single-neighbour difference pass subtracts.
#[derive(Clone, Copy, Debug, PartialEq, Eq, Structural)]
pub enum RegionKind {
    /// The slice's own cross-section: its outline is the perimeter.
    Outline,
    /// The slice above: what it leaves uncovered is top-exposed.
    TopExposed,
    /// The slice below: what it leaves unsupported must bridge.
    Bridge,
}

/// The region a single-neighbour pass fills on layer `k`: the
/// cross-section minus the neighbour's; empty on the run's boundary layer.
pub open spec fn neighbor_region(
    kind: RegionKind,
    mains: Seq<Seq<Seq<Point2>>>,
    k: int,
) -> Seq<Seq<Point2>> {
    let n = mains.len() as int;
    match kind {
        RegionKind::Outline => mains[k],
        RegionKind::TopExposed => if k + 1 < n {
            difference_checked(mains[k], mains[k + 1])
        } else {
            Seq::empty()
        },
        RegionKind::Bridge => if k >= 1 {
            difference_checked(mains[k], mains[k - 1])
        } else {
            Seq::empty()
        },
    }
}

/// Computes each layer's single-neighbour region exactly.
fn compute_neighbor_regions(layers: &Vec<Slice>, kind: RegionKind) -> (r: Vec<Vec<Vec<Point2>>>)
    ensures
        r@.len() == layers@.len(),
        forall|k: int|
            0 <= k < r@.len() ==> loops_view(#[trigger] r@[k]@) == neighbor_region(
                kind,
                mains_of(layers@),
                k,
            ),
{
    let ghost mains = mains_of(layers@);
    let n = layers.len();
    let mut regions: Vec<Vec<Vec<Point2>>> = Vec::new();
    let mut k: usize = 0;
    while k < n
        invariant
            k <= n,
            n == layers@.len(),
            mains == mains_of(layers@),
            regions@.len() == k,
            forall|q: int|
                0 <= q < k ==> loops_view(#[trigger] regions@[q]@) == neighbor_region(
                    kind,
                    mains,
                    q,
                ),
        decreases n - k,
    {
        proof {
            assert(mains[k as int] == loops_view(layers@[k as int].main_polygon@));
        }
        let region: Vec<Vec<Point2>> = match kind {
            RegionKind::Outline => copy_loops(&layers[k].main_polygon),
            RegionKind::TopExposed => {
                if k + 1 < n {
                    proof {
                        assert(mains[k + 1] == loops_view(layers@[k + 1].main_polygon@));
                    }
                    region_difference(&layers[k].main_polygon, &layers[k + 1].main_polygon)
                } else {
                    Vec::new()
                }
            },
            RegionKind::Bridge => {
                if k >= 1 {
                    proof {
                        assert(mains[k - 1] == loops_view(layers@[k - 1].main_polygon@));
                    }
                    region_difference(&layers[k].main_polygon, &layers[k - 1].main_polygon)
                } else {
                    Vec::new()
                }
            },
        };
        proof {
            assert(loops_view(region@) == neighbor_region(kind, mains, k as int));
        }
        regions.push(region);
        k = k + 1;
    }
    regions
}

/// A single-neighbour difference pass: every slice gains chains tracing
/// the region its neighbour does not cover.
pub fn neighbor_diff_pass(
    objects: Vec<Object>,
    kind: RegionKind,
    width: i64,
    move_type: MoveType,
) -> (r: Vec<Object>)
    ensures
        r@.len() == objects@.len(),
        forall|m: int|
            0 <= m < r@.len() ==> (#[trigger] r@[m]).layers@.len() == objects@[m].layers@.len(),
        forall|m: int, k: int|
            0 <= m < r@.len() && 0 <= k < objects@[m].layers@.len() ==> {
                let old_s = #[trigger] objects@[m].layers@[k];
                let new_s = #[trigger] r@[m].layers@[k];
                &&& new_s.main_polygon@ == old_s.main_polygon@
                &&& new_s.bottom_height == old_s.bottom_height
                &&& new_s.top_height == old_s.top_height
                &&& new_s.layer_index == old_s.layer_index
                &&& chains_view(new_s.chains@) == chains_view(old_s.chains@) + loops_chains(
                    neighbor_region(kind, mains_of(objects@[m].layers@), k),
                    width,
                    move_type,
                )
            },
        forall|m: int|
            0 <= m < r@.len() ==> slices_ordered((#[trigger] objects@[m]).layers@)
                ==> slices_ordered(r@[m].layers@),
{
    let ghost orig = objects@;
    let mut remaining = objects;
    let mut done: Vec<Object> = Vec::new();
    while remaining.len() > 0
        invariant
            done@.len() + remaining@.len() == orig.len(),
            forall|m: int|
                0 <= m < remaining@.len() ==> #[trigger] remaining@[m] == orig[m + done@.len()],
            forall|m: int|
                0 <= m < done@.len() ==> (#[trigger] done@[m]).layers@.len()
                    == orig[m].layers@.len(),
            forall|m: int, k: int|
                0 <= m < done@.len() && 0 <= k < orig[m].layers@.len() ==> {
                    let old_s = #[trigger] orig[m].layers@[k];
                    let new_s = #[trigger] done@[m].layers@[k];
                    &&& new_s.main_polygon@ == old_s.main_polygon@
                    &&& new_s.bottom_height == old_s.bottom_height
                    &&& new_s.top_height == old_s.top_height
                    &&& new_s.layer_index == old_s.layer_index
                    &&& chains_view(new_s.chains@) == chains_view(old_s.chains@) + loops_chains(
                        neighbor_region(kind, mains_of(orig[m].layers@), k),
                        width,
                        move_type,
                    )
                },
        decreases remaining@.len(),
    {
        let ghost m = done@.len();
        let object = remaining.remove(0);
        proof {
            assert(object == orig[m as int]);
        }
        let regions = compute_neighbor_regions(&object.layers, kind);
        let ghost lv = object.layers@;
        let mut layers = object.layers;
        let mut new_layers: Vec<Slice> = Vec::new();
        while layers.len() > 0
            invariant
                new_layers@.len() + layers@.len() == lv.len(),
                regions@.len() == lv.len(),
                forall|q: int|
                    0 <= q < regions@.len() ==> loops_view(#[trigger] regions@[q]@)
                        == neighbor_region(kind, mains_of(lv), q),
                forall|q: int| 0 <= q < layers@.len() ==> #[trigger] layers@[q] == lv[q
                    + new_layers@.len()],
                forall|k: int|
                    0 <= k < new_layers@.len() ==> {
                        let old_s = #[trigger] lv[k];
                        let new_s = #[trigger] new_layers@[k];
                        &&& new_s.main_polygon@ == old_s.main_polygon@
                        &&& new_s.bottom_height == old_s.bottom_height
                        &&& new_s.top_height == old_s.top_height
                        &&& new_s.layer_index == old_s.layer_index
                        &&& chains_view(new_s.chains@) == chains_view(old_s.chains@)
                            + loops_chains(neighbor_region(kind, mains_of(lv), k), width, move_type)
                    },
            decreases layers@.len(),
        {
            let ghost k = new_layers@.len();
            let idx = new_layers.len();
            let mut s = layers.remove(0);
            proof {
                assert(s == lv[k as int]);
            }
            let mut extra = loops_to_chains(&regions[idx], width, move_type);
            let ghost pre_chains = s.chains@;
            let ghost extra_vec = extra@;
            s.chains.append(&mut extra);
            proof {
                assert(s.chains@ == pre_chains + extra_vec);
                assert(chains_view(s.chains@) =~= chains_view(pre_chains) + chains_view(
                    extra_vec,
                )) by {
                    assert forall|q: int| 0 <= q < s.chains@.len() implies chains_view(
                        s.chains@,
                    )[q] == (chains_view(pre_chains) + chains_view(extra_vec))[q] by {
                        assert(chains_view(s.chains@)[q] == s.chains@[q]@);
                        if q < pre_chains.len() {
                            assert(s.chains@[q] == pre_chains[q]);
                        } else {
                            assert(s.chains@[q] == extra_vec[q - pre_chains.len()]);
                        }
                    }
                }
            }
            new_layers.push(s);
        }
        proof {
            assert(new_layers@.len() == lv.len());
            assert(lv == orig[m as int].layers@);
        }
        let ghost pre_done = done@;
        done.push(Object { layers: new_layers });
        proof {
            assert forall|m2: int, k2: int|
                0 <= m2 < done@.len() && 0 <= k2 < orig[m2].layers@.len() implies {
                let old_s = #[trigger] orig[m2].layers@[k2];
                let new_s = #[trigger] done@[m2].layers@[k2];
                &&& new_s.main_polygon@ == old_s.main_polygon@
                &&& new_s.bottom_height == old_s.bottom_height
                &&& new_s.top_height == old_s.top_height
                &&& new_s.layer_index == old_s.layer_index
                &&& chains_view(new_s.chains@) == chains_view(old_s.chains@) + loops_chains(
                    neighbor_region(kind, mains_of(orig[m2].layers@), k2),
                    width,
                    move_type,
                )
            } by {
                if m2 < m {
                    assert(done@[m2] == pre_done[m2]);
                } else {
                    assert(done@[m2].layers@ == new_layers@);
                }
            }
        }
    }
    proof {
        assert forall|m2: int|
            0 <= m2 < done@.len() && slices_ordered(orig[m2].layers@) implies slices_ordered(
            done@[m2].layers@,
        ) by {
            let dl = done@[m2].layers@;
            let ol = orig[m2].layers@;
            assert(dl.len() == ol.len());
            assert(slices_ordered(dl)) by {
                assert forall|k2: int| 0 <= k2 < dl.len() implies (#[trigger] dl[k2]).layer_index
                    == k2 && dl[k2].bottom_height >= 0 && dl[k2].top_height
                    > dl[k2].bottom_height by {
                    assert(ol[k2].layer_index == k2 && ol[k2].bottom_height >= 0
                        && ol[k2].top_height > ol[k2].bottom_height);
                }
                assert forall|k2: int| 0 < k2 < dl.len() implies (#[trigger] dl[k2]).top_height
                    >= dl[k2 - 1].top_height && dl[k2].bottom_height == dl[k2
                    - 1].top_height by {
                    assert(ol[k2].top_height >= ol[k2 - 1].top_height && ol[k2].bottom_height
                        == ol[k2 - 1].top_height);
                }
            }
        }
    }
    done
}

/// The top-layer pass: every slice below the last gains top-solid chains
/// over the area its upper neighbour leaves exposed.
pub fn top_layer_pass(objects: Vec<Object>, settings: &Settings) -> (r: Vec<Object>)
    ensures
        r@.len() == objects@.len(),
        forall|m: int|
            0 <= m < r@.len() ==> (#[trigger] r@[m]).layers@.len() == objects@[m].layers@.len(),
        forall|m: int, k: int|
            0 <= m < r@.len() && 0 <= k < objects@[m].layers@.len() ==> chains_view(
                (#[trigger] r@[m].layers@[k]).chains@,
            ) == chains_view((#[trigger] objects@[m].layers@[k]).chains@) + loops_chains(
                neighbor_region(RegionKind::TopExposed, mains_of(objects@[m].layers@), k),
                settings.extrusion_width.solid_top_infill,
                MoveType::TopSolidInfill,
            ),
        forall|m: int|
            0 <= m < r@.len() ==> slices_ordered((#[trigger] objects@[m]).layers@)
                ==> slices_ordered(r@[m].layers@),
        forall|m: int, k: int|
            0 <= m < r@.len() && 0 <= k < objects@[m].layers@.len() ==> (
            #[trigger] r@[m].layers@[k]).main_polygon@ == (
            #[trigger] objects@[m].layers@[k]).main_polygon@,
{
    neighbor_diff_pass(
        objects,
        RegionKind::TopExposed,
        settings.extrusion_width.solid_top_infill,
        MoveType::TopSolidInfill,
    )
}

/// The bridging pass: every slice above the first gains bridging chains
/// over the area its lower neighbour does not support.
pub fn bridging_pass(objects: Vec<Object>, settings: &Settings) -> (r: Vec<Object>)
    ensures
        r@.len() == objects@.len(),
        forall|m: int|
            0 <= m < r@.len() ==> (#[trigger] r@[m]).layers@.len() == objects@[m].layers@.len(),
        forall|m: int, k: int|
            0 <= m < r@.len() && 0 <= k < objects@[m].layers@.len() ==> chains_view(
                (#[trigger] r@[m].layers@[k]).chains@,
            ) == chains_view((#[trigger] objects@[m].layers@[k]).chains@) + loops_chains(
                neighbor_region(RegionKind::Bridge, mains_of(objects@[m].layers@), k),
                settings.extrusion_width.bridge,
                MoveType::Bridging,
            ),
        forall|m: int|
            0 <= m < r@.len() ==> slices_ordered((#[trigger] objects@[m]).layers@)
                ==> slices_ordered(r@[m].layers@),
        forall|m: int, k: int|
            0 <= m < r@.len() && 0 <= k < objects@[m].layers@.len() ==> (
            #[trigger] r@[m].layers@[k]).main_polygon@ == (
            #[trigger] objects@[m].layers@[k]).main_polygon@,
{
    neighbor_diff_pass(
        objects,
        RegionKind::Bridge,
        settings.extrusion_width.bridge,
        MoveType::Bridging,
    )
}

/// The chain-ordering pass: within every slice the chains are reordered
/// by the travel-minimizing heuristic, starting from the origin.  Chains
/// whose points leave the exact-arithmetic range are left in their given
/// order.
pub fn order_pass(objects: Vec<Object>) -> (r: Vec<Object>)
    ensures
        r@.len() == objects@.len(),
        forall|m: int|
            0 <= m < r@.len() ==> (#[trigger] r@[m]).layers@.len() == objects@[m].layers@.len(),
        forall|m: int, k: int|
            0 <= m < r@.len() && 0 <= k < objects@[m].layers@.len() ==> {
                let old_s = #[trigger] objects@[m].layers@[k];
                let new_s = #[trigger] r@[m].layers@[k];
                &&& new_s.main_polygon@ == old_s.main_polygon@
                &&& new_s.bottom_height == old_s.bottom_height
                &&& new_s.top_height == old_s.top_height
                &&& new_s.layer_index == old_s.layer_index
                &&& chains_view(new_s.chains@).to_multiset() == chains_view(
                    old_s.chains@,
                ).to_multiset()
                &&& crate::order::chains_bounded(chains_view(old_s.chains@))
                    ==> crate::order::greedy_ordered(
                    chains_view(new_s.chains@),
                    Point2 { x: 0, y: 0 },
                )
            },
        forall|m: int|
            0 <= m < r@.len() ==> slices_ordered((#[trigger] objects@[m]).layers@)
                ==> slices_ordered(r@[m].layers@),
{
    let ghost orig = objects@;
    let mut remaining = objects;
    let mut done: Vec<Object> = Vec::new();
    while remaining.len() > 0
        invariant
            done@.len() + remaining@.len() == orig.len(),
            forall|m: int|
                0 <= m < remaining@.len() ==> #[trigger] remaining@[m] == orig[m + done@.len()],
            forall|m: int|
                0 <= m < done@.len() ==> (#[trigger] done@[m]).layers@.len()
                    == orig[m].layers@.len(),
            forall|m: int, k: int|
                0 <= m < done@.len() && 0 <= k < orig[m].layers@.len() ==> {
                    let old_s = #[trigger] orig[m].layers@[k];
                    let new_s = #[trigger] done@[m].layers@[k];
                    &&& new_s.main_polygon@ == old_s.main_polygon@
                    &&& new_s.bottom_height == old_s.bottom_height
                    &&& new_s.top_height == old_s.top_height
                    &&& new_s.layer_index == old_s.layer_index
                    &&& chains_view(new_s.chains@).to_multiset() == chains_view(
                        old_s.chains@,
                    ).to_multiset()
                    &&& crate::order::chains_bounded(chains_view(old_s.chains@))
                        ==> crate::order::greedy_ordered(
                        chains_view(new_s.chains@),
                        Point2 { x: 0, y: 0 },
                    )
                },
        decreases remaining@.len(),
    {
        let ghost m = done@.len();
        let object = remaining.remove(0);
        proof {
            assert(object == orig[m as int]);
        }
        let ghost lv = object.layers@;
        let mut layers = object.layers;
        let mut new_layers: Vec<Slice> = Vec::new();
        while layers.len() > 0
            invariant
                new_layers@.len() + layers@.len() == lv.len(),
                forall|q: int| 0 <= q < layers@.len() ==> #[trigger] layers@[q] == lv[q
                    + new_layers@.len()],
                forall|k: int|
                    0 <= k < new_layers@.len() ==> {
                        let old_s = #[trigger] lv[k];
                        let new_s = #[trigger] new_layers@[k];
                        &&& new_s.main_polygon@ == old_s.main_polygon@
                        &&& new_s.bottom_height == old_s.bottom_height
                        &&& new_s.top_height == old_s.top_height
                        &&& new_s.layer_index == old_s.layer_index
                        &&& chains_view(new_s.chains@).to_multiset() == chains_view(
                            old_s.chains@,
                        ).to_multiset()
                        &&& crate::order::chains_bounded(chains_view(old_s.chains@))
                            ==> crate::order::greedy_ordered(
                            chains_view(new_s.chains@),
                            Point2 { x: 0, y: 0 },
                        )
                    },
            decreases layers@.len(),
        {
            let ghost k = new_layers@.len();
            let s = layers.remove(0);
            proof {
                assert(s == lv[k as int]);
            }
            let Slice { main_polygon, bottom_height, top_height, layer_index, chains } = s;
            let ordered = if crate::order::chains_all_bounded(&chains) {
                crate::order::order_chains(chains, Point2 { x: 0, y: 0 })
            } else {
                chains
            };
            new_layers.push(
                Slice {
                    main_polygon,
                    bottom_height,
                    top_height,
                    layer_index,
                    chains: ordered,
                },
            );
        }
        proof {
            assert(new_layers@.len() == lv.len());
            assert(lv == orig[m as int].layers@);
        }
        let ghost pre_done = done@;
        done.push(Object { layers: new_layers });
        proof {
            assert forall|m2: int, k2: int|
                0 <= m2 < done@.len() && 0 <= k2 < orig[m2].layers@.len() implies {
                let old_s = #[trigger] orig[m2].layers@[k2];
                let new_s = #[trigger] done@[m2].layers@[k2];
                &&& new_s.main_polygon@ == old_s.main_polygon@
                &&& new_s.bottom_height == old_s.bottom_height
                &&& new_s.top_height == old_s.top_height
                &&& new_s.layer_index == old_s.layer_index
                &&& chains_view(new_s.chains@).to_multiset() == chains_view(
                    old_s.chains@,
                ).to_multiset()
                &&& crate::order::chains_bounded(chains_view(old_s.chains@))
                    ==> crate::order::greedy_ordered(
                    chains_view(new_s.chains@),
                    Point2 { x: 0, y: 0 },
                )
            } by {
                if m2 < m {
                    assert(done@[m2] == pre_done[m2]);
                } else {
                    assert(done@[m2].layers@ == new_layers@);
                }
            }
        }
    }
    proof {
        assert forall|m2: int|
            0 <= m2 < done@.len() && slices_ordered(orig[m2].layers@) implies slices_ordered(
            done@[m2].layers@,
        ) by {
            let dl = done@[m2].layers@;
            let ol = orig[m2].layers@;
            assert(dl.len() == ol.len());
            assert(slices_ordered(dl)) by {
                assert forall|k2: int| 0 <= k2 < dl.len() implies (#[trigger] dl[k2]).layer_index
                    == k2 && dl[k2].bottom_height >= 0 && dl[k2].top_height
                    > dl[k2].bottom_height by {
                    assert(ol[k2].layer_index == k2 && ol[k2].bottom_height >= 0
                        && ol[k2].top_height > ol[k2].bottom_height);
                }
                assert forall|k2: int| 0 < k2 < dl.len() implies (#[trigger] dl[k2]).top_height
                    >= dl[k2 - 1].top_height && dl[k2].bottom_height == dl[k2
                    - 1].top_height by {
                    assert(ol[k2].top_height >= ol[k2 - 1].top_height && ol[k2].bottom_height
                        == ol[k2 - 1].top_height);
                }
            }
        }
    }
    done
}

/// What shrinking one slice's cross-section yields: its loops inset by
/// the resolved shrink amount; slices without a shrink amount, an amount
/// that cannot be negated, or geometry the outline engine refuses keep
/// their cross-section.
pub open spec fn shrunk_main(
    main: Seq<Seq<Point2>>,
    amount: Option<i64>,
) -> Seq<Seq<Point2>> {
    match amount {
        None => main,
        Some(d) => if d == i64::MIN {
            main
        } else {
            match offset_checked(main, -d as i64) {
                Some(v) => v,
                None => main,
            }
        },
    }
}

/// The shrink pass: every slice's cross-section is inset by its layer's
/// resolved shrink amount; chains and heights are untouched.
pub fn shrink_pass(objects: Vec<Object>, settings: &Settings) -> (r: Vec<Object>)
    ensures
        r@.len() == objects@.len(),
        forall|m: int|
            0 <= m < r@.len() ==> (#[trigger] r@[m]).layers@.len() == objects@[m].layers@.len(),
        forall|m: int, k: int|
            0 <= m < r@.len() && 0 <= k < objects@[m].layers@.len() ==> {
                let old_s = #[trigger] objects@[m].layers@[k];
                let new_s = #[trigger] r@[m].layers@[k];
                &&& new_s.bottom_height == old_s.bottom_height
                &&& new_s.top_height == old_s.top_height
                &&& new_s.layer_index == old_s.layer_index
                &&& new_s.chains@ == old_s.chains@
                &&& loops_view(new_s.main_polygon@) == shrunk_main(
                    loops_view(old_s.main_polygon@),
                    settings.layer_settings_spec(
                        old_s.layer_index,
                        old_s.bottom_height,
                    ).layer_shrink_amount,
                )
            },
        forall|m: int|
            0 <= m < r@.len() ==> slices_ordered((#[trigger] objects@[m]).layers@)
                ==> slices_ordered(r@[m].layers@),
{
    let ghost orig = objects@;
    let mut remaining = objects;
    let mut done: Vec<Object> = Vec::new();
    while remaining.len() > 0
        invariant
            done@.len() + remaining@.len() == orig.len(),
            forall|m: int|
                0 <= m < remaining@.len() ==> #[trigger] remaining@[m] == orig[m + done@.len()],
            forall|m: int|
                0 <= m < done@.len() ==> (#[trigger] done@[m]).layers@.len()
                    == orig[m].layers@.len(),
            forall|m: int, k: int|
                0 <= m < done@.len() && 0 <= k < orig[m].layers@.len() ==> {
                    let old_s = #[trigger] orig[m].layers@[k];
                    let new_s = #[trigger] done@[m].layers@[k];
                    &&& new_s.bottom_height == old_s.bottom_height
                    &&& new_s.top_height == old_s.top_height
                    &&& new_s.layer_index == old_s.layer_index
                    &&& new_s.chains@ == old_s.chains@
                    &&& loops_view(new_s.main_polygon@) == shrunk_main(
                        loops_view(old_s.main_polygon@),
                        settings.layer_settings_spec(
                            old_s.layer_index,
                            old_s.bottom_height,
                        ).layer_shrink_amount,
                    )
                },
        decreases remaining@.len(),
    {
        let ghost m = done@.len();
        let object = remaining.remove(0);
        proof {
            assert(object == orig[m as int]);
        }
        let ghost lv = object.layers@;
        let mut layers = object.layers;
        let mut new_layers: Vec<Slice> = Vec::new();
        while layers.len() > 0
            invariant
                new_layers@.len() + layers@.len() == lv.len(),
                forall|q: int| 0 <= q < layers@.len() ==> #[trigger] layers@[q] == lv[q
                    + new_layers@.len()],
                forall|k: int|
                    0 <= k < new_layers@.len() ==> {
                        let old_s = #[trigger] lv[k];
                        let new_s = #[trigger] new_layers@[k];
                        &&& new_s.bottom_height == old_s.bottom_height
                        &&& new_s.top_height == old_s.top_height
                        &&& new_s.layer_index == old_s.layer_index
                        &&& new_s.chains@ == old_s.chains@
                        &&& loops_view(new_s.main_polygon@) == shrunk_main(
                            loops_view(old_s.main_polygon@),
                            settings.layer_settings_spec(
                                old_s.layer_index,
                                old_s.bottom_height,
                            ).layer_shrink_amount,
                        )
                    },
            decreases layers@.len(),
        {
            let ghost k = new_layers@.len();
            let mut s = layers.remove(0);
            proof {
                assert(s == lv[k as int]);
            }
            let resolved = settings.get_layer_settings(s.layer_index, s.bottom_height);
            match resolved.layer_shrink_amount {
                Some(d) => {
                    if !(d == i64::MIN) {
                        match region_offset(&s.main_polygon, -d) {
                            Some(loops) => {
                                s.main_polygon = loops;
                            },
                            None => {},
                        }
                    }
                },
                None => {},
            }
            new_layers.push(s);
        }
        proof {
            assert(new_layers@.len() == lv.len());
            assert(lv == orig[m as int].layers@);
        }
        let ghost pre_done = done@;
        done.push(Object { layers: new_layers });
        proof {
            assert forall|m2: int, k2: int|
                0 <= m2 < done@.len() && 0 <= k2 < orig[m2].layers@.len() implies {
                let old_s = #[trigger] orig[m2].layers@[k2];
                let new_s = #[trigger] done@[m2].layers@[k2];
                &&& new_s.bottom_height == old_s.bottom_height
                &&& new_s.top_height == old_s.top_height
                &&& new_s.layer_index == old_s.layer_index
                &&& new_s.chains@ == old_s.chains@
                &&& loops_view(new_s.main_polygon@) == shrunk_main(
                    loops_view(old_s.main_polygon@),
                    settings.layer_settings_spec(
                        old_s.layer_index,
                        old_s.bottom_height,
                    ).layer_shrink_amount,
                )
            } by {
                if m2 < m {
                    assert(done@[m2] == pre_done[m2]);
                } else {
                    assert(done@[m2].layers@ == new_layers@);
                }
            }
        }
    }
    proof {
        assert forall|m2: int|
            0 <= m2 < done@.len() && slices_ordered(orig[m2].layers@) implies slices_ordered(
            done@[m2].layers@,
        ) by {
            let dl = done@[m2].layers@;
            let ol = orig[m2].layers@;
            assert(dl.len() == ol.len());
            assert(slices_ordered(dl)) by {
                assert forall|k2: int| 0 <= k2 < dl.len() implies (#[trigger] dl[k2]).layer_index
                    == k2 && dl[k2].bottom_height >= 0 && dl[k2].top_height
                    > dl[k2].bottom_height by {
                    assert(ol[k2].layer_index == k2 && ol[k2].bottom_height >= 0
                        && ol[k2].top_height > ol[k2].bottom_height);
                }
                assert forall|k2: int| 0 < k2 < dl.len() implies (#[trigger] dl[k2]).top_height
                    >= dl[k2 - 1].top_height && dl[k2].bottom_height == dl[k2
                    - 1].top_height by {
                    assert(ol[k2].top_height >= ol[k2 - 1].top_height && ol[k2].bottom_height
                        == ol[k2 - 1].top_height);
                }
            }
        }
    }
    done
}

/// Tracing an empty region adds no chains.
proof fn lemma_loops_chains_empty(width: i64, move_type: MoveType)
    ensures
        loops_chains(Seq::<Seq<Point2>>::empty(), width, move_type) == Seq::<crate::order::MoveChainV>::empty(),
{
}

/// The inward perimeter rings after the outermost: each ring is the
/// previous one inset by a full extrusion width; an inset the outline
/// engine refuses ends the walk.
pub open spec fn inner_rings(cur: Seq<Seq<Point2>>, w: i64, count: nat) -> Seq<
    Seq<Seq<Point2>>,
>
    decreases count,
{
    if count == 0 || w <= 0 {
        Seq::empty()
    } else {
        match offset_checked(cur, (-(w as int)) as i64) {
            None => Seq::empty(),
            Some(nxt) => seq![nxt] + inner_rings(nxt, w, (count - 1) as nat),
        }
    }
}

/// The concentric perimeter rings of a cross-section: the outermost is the
/// cross-section inset by half the extrusion width, each further ring the
/// previous one inset by a full width.  A zero count, a non-positive
/// width, or an inset the outline engine refuses ends the walk.
pub open spec fn perimeter_rings(main: Seq<Seq<Point2>>, w: i64, count: nat) -> Seq<
    Seq<Seq<Point2>>,
> {
    if count == 0 || w <= 0 {
        Seq::empty()
    } else {
        match offset_checked(main, (-(w as int / 2)) as i64) {
            None => Seq::empty(),
            Some(r0) => seq![r0] + inner_rings(r0, w, (count - 1) as nat),
        }
    }
}

/// The chains of a list of perimeter rings: the outermost ring's loops as
/// exterior surface perimeters, every deeper ring's as inner perimeters,
/// each with its movement type's extrusion width.
pub open spec fn rings_chains(
    rings: Seq<Seq<Seq<Point2>>>,
    ws: MovementParameter,
    first: bool,
) -> Seq<MoveChainV>
    decreases rings.len(),
{
    if rings.len() == 0 {
        Seq::empty()
    } else {
        let mt = if first {
            MoveType::ExteriorSurfacePerimeter
        } else {
            MoveType::InteriorInnerPerimeter
        };
        loops_chains(rings[0], ws.value_for_spec(mt), mt) + rings_chains(
            rings.skip(1),
            ws,
            false,
        )
    }
}

/// What the perimeter pass appends for one slice: the chains of its
/// concentric rings, inset by the layer's resolved inner extrusion width.
pub open spec fn slice_perimeter_chains(s: Settings, old_s: Slice) -> Seq<MoveChainV> {
    let ls = s.layer_settings_spec(old_s.layer_index, old_s.bottom_height);
    let w = ls.extrusion_width.value_for_spec(MoveType::InteriorInnerPerimeter);
    rings_chains(
        perimeter_rings(loops_view(old_s.main_polygon@), w, s.number_of_perimeters as nat),
        ls.extrusion_width,
        true,
    )
}

/// Appends one slice's concentric perimeter chains, exactly as
/// `slice_perimeter_chains` states; everything else is untouched.
fn add_perimeters(s: &mut Slice, settings: &Settings)
    ensures
        final(s).bottom_height == old(s).bottom_height,
        final(s).top_height == old(s).top_height,
        final(s).layer_index == old(s).layer_index,
        final(s).main_polygon@ == old(s).main_polygon@,
        chains_view(final(s).chains@) == chains_view(old(s).chains@) + slice_perimeter_chains(
            *settings,
            *old(s),
        ),
{
    let resolved = settings.get_layer_settings(s.layer_index, s.bottom_height);
    let w = resolved.extrusion_width.get_value_for_movement_type(
        &MoveType::InteriorInnerPerimeter,
    );
    let count = settings.number_of_perimeters;
    let ghost main0 = loops_view(s.main_polygon@);
    let ghost ws = resolved.extrusion_width;
    let ghost total = rings_chains(perimeter_rings(main0, w, count as nat), ws, true);
    let ghost chains0 = chains_view(s.chains@);
    if count == 0 || w <= 0 {
        proof {
            assert(total =~= Seq::<MoveChainV>::empty());
            assert(chains_view(s.chains@) =~= chains0 + total);
        }
        return ;
    }
    let half: i64 = w / 2;
    match region_offset(&s.main_polygon, -half) {
        None => {
            proof {
                assert(offset_checked(main0, (-(w as int / 2)) as i64) is None);
                assert(total =~= Seq::<MoveChainV>::empty());
                assert(chains_view(s.chains@) =~= chains0 + total);
            }
        },
        Some(r0) => {
            let w0 = resolved.extrusion_width.get_value_for_movement_type(
                &MoveType::ExteriorSurfacePerimeter,
            );
            let mut extra = loops_to_chains(&r0, w0, MoveType::ExteriorSurfacePerimeter);
            let ghost pre_chains = s.chains@;
            let ghost extra_vec = extra@;
            let ghost r0v = loops_view(r0@);
            s.chains.append(&mut extra);
            proof {
                assert(s.chains@ == pre_chains + extra_vec);
                assert(chains_view(s.chains@) =~= chains_view(pre_chains) + chains_view(
                    extra_vec,
                )) by {
                    assert forall|q: int| 0 <= q < s.chains@.len() implies chains_view(
                        s.chains@,
                    )[q] == (chains_view(pre_chains) + chains_view(extra_vec))[q] by {
                        assert(chains_view(s.chains@)[q] == s.chains@[q]@);
                        if q < pre_chains.len() {
                            assert(s.chains@[q] == pre_chains[q]);
                        } else {
                            assert(s.chains@[q] == extra_vec[q - pre_chains.len()]);
                        }
                    }
                }
                let rr = perimeter_rings(main0, w, count as nat);
                assert(offset_checked(main0, (-(w as int / 2)) as i64) == Some(r0v));
                assert(rr == seq![r0v] + inner_rings(r0v, w, (count - 1) as nat));
                assert(rr[0] == r0v);
                assert(rr.skip(1) =~= inner_rings(r0v, w, (count - 1) as nat));
                assert(total == loops_chains(
                    r0v,
                    ws.value_for_spec(MoveType::ExteriorSurfacePerimeter),
                    MoveType::ExteriorSurfacePerimeter,
                ) + rings_chains(inner_rings(r0v, w, (count - 1) as nat), ws, false));
                assert((chains_view(pre_chains) + loops_chains(
                    r0v,
                    w0,
                    MoveType::ExteriorSurfacePerimeter,
                )) + rings_chains(inner_rings(r0v, w, (count - 1) as nat), ws, false)
                    =~= chains_view(pre_chains) + (loops_chains(
                    r0v,
                    w0,
                    MoveType::ExteriorSurfacePerimeter,
                ) + rings_chains(inner_rings(r0v, w, (count - 1) as nat), ws, false)));
            }
            let mut cur = r0;
            let mut i: usize = 1;
            let mut going: bool = true;
            while going && i < count
                invariant
                    w > 0,
                    1 <= i <= count,
                    ws == resolved.extrusion_width,
                    w == ws.value_for_spec(MoveType::InteriorInnerPerimeter),
                    s.bottom_height == old(s).bottom_height,
                    s.top_height == old(s).top_height,
                    s.layer_index == old(s).layer_index,
                    s.main_polygon@ == old(s).main_polygon@,
                    chains_view(s.chains@) + (if going {
                        rings_chains(
                            inner_rings(loops_view(cur@), w, (count - i) as nat),
                            ws,
                            false,
                        )
                    } else {
                        Seq::<MoveChainV>::empty()
                    }) == chains0 + total,
                decreases count - i, (if going {
                    1int
                } else {
                    0int
                }),
            {
                let ghost c = (count - i) as nat;
                let ghost cv = loops_view(cur@);
                match region_offset(&cur, -w) {
                    None => {
                        proof {
                            assert(offset_checked(cv, (-(w as int)) as i64) is None);
                            assert(inner_rings(cv, w, c) == Seq::<Seq<Seq<Point2>>>::empty());
                            assert(chains_view(s.chains@) + Seq::<MoveChainV>::empty()
                                =~= chains_view(s.chains@));
                        }
                        going = false;
                    },
                    Some(nxt) => {
                        let ghost nv = loops_view(nxt@);
                        let mut extra = loops_to_chains(&nxt, w, MoveType::InteriorInnerPerimeter);
                        let ghost pre_chains = s.chains@;
                        let ghost extra_vec = extra@;
                        s.chains.append(&mut extra);
                        proof {
                            assert(s.chains@ == pre_chains + extra_vec);
                            assert(chains_view(s.chains@) =~= chains_view(pre_chains)
                                + chains_view(extra_vec)) by {
                                assert forall|q: int| 0 <= q < s.chains@.len() implies chains_view(
                                    s.chains@,
                                )[q] == (chains_view(pre_chains) + chains_view(extra_vec))[q] by {
                                    assert(chains_view(s.chains@)[q] == s.chains@[q]@);
                                    if q < pre_chains.len() {
                                        assert(s.chains@[q] == pre_chains[q]);
                                    } else {
                                        assert(s.chains@[q] == extra_vec[q - pre_chains.len()]);
                                    }
                                }
                            }
                            assert(offset_checked(cv, (-(w as int)) as i64) == Some(nv));
                            assert(inner_rings(cv, w, c) == seq![nv] + inner_rings(
                                nv,
                                w,
                                (c - 1) as nat,
                            ));
                            assert((seq![nv] + inner_rings(nv, w, (c - 1) as nat))[0] == nv);
                            assert((seq![nv] + inner_rings(nv, w, (c - 1) as nat)).skip(1)
                                =~= inner_rings(nv, w, (c - 1) as nat));
                            assert(rings_chains(inner_rings(cv, w, c), ws, false)
                                == loops_chains(
                                nv,
                                ws.value_for_spec(MoveType::InteriorInnerPerimeter),
                                MoveType::InteriorInnerPerimeter,
                            ) + rings_chains(inner_rings(nv, w, (c - 1) as nat), ws, false));
                            assert((chains_view(pre_chains) + loops_chains(
                                nv,
                                w,
                                MoveType::InteriorInnerPerimeter,
                            )) + rings_chains(inner_rings(nv, w, (c - 1) as nat), ws, false)
                                =~= chains_view(pre_chains) + (loops_chains(
                                nv,
                                w,
                                MoveType::InteriorInnerPerimeter,
                            ) + rings_chains(inner_rings(nv, w, (c - 1) as nat), ws, false)));
                        }
                        cur = nxt;
                        i = i + 1;
                    },
                }
            }
            proof {
                if going {
                    assert(inner_rings(loops_view(cur@), w, (count - i) as nat) == Seq::<
                        Seq<Seq<Point2>>,
                    >::empty());
                    assert(chains_view(s.chains@) + Seq::<MoveChainV>::empty() =~= chains_view(
                        s.chains@,
                    ));
                }
                assert(chains_view(s.chains@) == chains0 + total);
            }
        },
    }
}

/// The perimeter pass: every slice gains its concentric perimeter chains,
/// the outermost ring inset half an extrusion width from the cross-section
/// and classified as the exterior surface, each deeper ring a full width
/// further in and classified as inner; heights, indices and cross-sections
/// are untouched.
pub fn perimeter_pass(objects: Vec<Object>, settings: &Settings) -> (r: Vec<Object>)
    ensures
        r@.len() == objects@.len(),
        forall|m: int|
            0 <= m < r@.len() ==> (#[trigger] r@[m]).layers@.len() == objects@[m].layers@.len(),
        forall|m: int, k: int|
            0 <= m < r@.len() && 0 <= k < objects@[m].layers@.len() ==> {
                let old_s = #[trigger] objects@[m].layers@[k];
                let new_s = #[trigger] r@[m].layers@[k];
                &&& new_s.bottom_height == old_s.bottom_height
                &&& new_s.top_height == old_s.top_height
                &&& new_s.layer_index == old_s.layer_index
                &&& new_s.main_polygon@ == old_s.main_polygon@
                &&& chains_view(new_s.chains@) == chains_view(old_s.chains@)
                    + slice_perimeter_chains(*settings, old_s)
            },
        forall|m: int|
            0 <= m < r@.len() ==> slices_ordered((#[trigger] objects@[m]).layers@)
                ==> slices_ordered(r@[m].layers@),
{
    let ghost orig = objects@;
    let mut remaining = objects;
    let mut done: Vec<Object> = Vec::new();
    while remaining.len() > 0
        invariant
            done@.len() + remaining@.len() == orig.len(),
            forall|m: int|
                0 <= m < remaining@.len() ==> #[trigger] remaining@[m] == orig[m + done@.len()],
            forall|m: int|
                0 <= m < done@.len() ==> (#[trigger] done@[m]).layers@.len()
                    == orig[m].layers@.len(),
            forall|m: int, k: int|
                0 <= m < done@.len() && 0 <= k < orig[m].layers@.len() ==> {
                    let old_s = #[trigger] orig[m].layers@[k];
                    let new_s = #[trigger] done@[m].layers@[k];
                    &&& new_s.bottom_height == old_s.bottom_height
                    &&& new_s.top_height == old_s.top_height
                    &&& new_s.layer_index == old_s.layer_index
                    &&& new_s.main_polygon@ == old_s.main_polygon@
                    &&& chains_view(new_s.chains@) == chains_view(old_s.chains@)
                        + slice_perimeter_chains(*settings, old_s)
                },
        decreases remaining@.len(),
    {
        let ghost m = done@.len();
        let object = remaining.remove(0);
        proof {
            assert(object == orig[m as int]);
        }
        let ghost lv = object.layers@;
        let mut layers = object.layers;
        let mut new_layers: Vec<Slice> = Vec::new();
        while layers.len() > 0
            invariant
                new_layers@.len() + layers@.len() == lv.len(),
                forall|q: int| 0 <= q < layers@.len() ==> #[trigger] layers@[q] == lv[q
                    + new_layers@.len()],
                forall|k: int|
                    0 <= k < new_layers@.len() ==> {
                        let old_s = #[trigger] lv[k];
                        let new_s = #[trigger] new_layers@[k];
                        &&& new_s.bottom_height == old_s.bottom_height
                        &&& new_s.top_height == old_s.top_height
                        &&& new_s.layer_index == old_s.layer_index
                        &&& new_s.main_polygon@ == old_s.main_polygon@
                        &&& chains_view(new_s.chains@) == chains_view(old_s.chains@)
                            + slice_perimeter_chains(*settings, old_s)
                    },
            decreases layers@.len(),
        {
            let ghost k = new_layers@.len();
            let mut s = layers.remove(0);
            proof {
                assert(s == lv[k as int]);
            }
            add_perimeters(&mut s, settings);
            new_layers.push(s);
        }
        proof {
            assert(new_layers@.len() == lv.len());
            assert(lv == orig[m as int].layers@);
        }
        let ghost pre_done = done@;
        done.push(Object { layers: new_layers });
        proof {
            assert forall|m2: int, k2: int|
                0 <= m2 < done@.len() && 0 <= k2 < orig[m2].layers@.len() implies {
                let old_s = #[trigger] orig[m2].layers@[k2];
                let new_s = #[trigger] done@[m2].layers@[k2];
                &&& new_s.bottom_height == old_s.bottom_height
                &&& new_s.top_height == old_s.top_height
                &&& new_s.layer_index == old_s.layer_index
                &&& new_s.main_polygon@ == old_s.main_polygon@
                &&& chains_view(new_s.chains@) == chains_view(old_s.chains@)
                    + slice_perimeter_chains(*settings, old_s)
            } by {
                if m2 < m {
                    assert(done@[m2] == pre_done[m2]);
                } else {
                    assert(done@[m2].layers@ == new_layers@);
                }
            }
        }
    }
    proof {
        assert forall|m2: int|
            0 <= m2 < done@.len() && slices_ordered(orig[m2].layers@) implies slices_ordered(
            done@[m2].layers@,
        ) by {
            let dl = done@[m2].layers@;
            let ol = orig[m2].layers@;
            assert forall|i: int| 0 <= i < dl.len() implies (#[trigger] dl[i]).layer_index == i
                && dl[i].bottom_height >= 0 && dl[i].top_height > dl[i].bottom_height by {
                assert(dl[i].bottom_height == ol[i].bottom_height);
                assert(dl[i].top_height == ol[i].top_height);
                assert(dl[i].layer_index == ol[i].layer_index);
            }
            assert forall|i: int| 0 < i < dl.len() implies (#[trigger] dl[i]).top_height >= dl[i
                - 1].top_height && dl[i].bottom_height == dl[i - 1].top_height by {
                assert(dl[i].bottom_height == ol[i].bottom_height);
                assert(dl[i].top_height == ol[i].top_height);
                assert(dl[i - 1].top_height == ol[i - 1].top_height);
            }
        }
    }
    done
}

} // verus!
