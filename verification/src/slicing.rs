//! The slicing driver: walk each tower with a sweep plane, cutting through
//! the middle of every layer, and collect one `Slice` per layer, ordered
//! from bottom to top.

use vstd::multiset::Multiset;
use vstd::prelude::*;

use crate::commands::{MoveChain, Point2, MAX_COORD};
use crate::errors::SlicerErrors;
use crate::heap::{heap_contents, EventKey};
use crate::settings::{fold_overrides, settings_valid, PartialLayerSettings, Settings};
use crate::tower::{close_loop, iter_inv, ring_points, rings_view, sweep_to, tower_frag_map,
    tower_wf, TowerRingElement, TriangleTower, TriangleTowerIterator};

verus! {

/// One layer of one object: the cross-section's point loops and, once the
/// passes have run, the move chains that print it.
#[derive(Clone, Debug)]
pub struct Slice {
    /// The cross-section: closed point loops, outer rings and holes.
    pub main_polygon: Vec<Vec<Point2>>,
    /// The layer's bottom height, in units.
    pub bottom_height: i64,
    /// The layer's top height, in units.
    pub top_height: i64,
    /// The layer's index, from zero at the bottom.
    pub layer_index: usize,
    /// The move chains accumulated by the passes, in print order.
    pub chains: Vec<MoveChain>,
}

/// An ordered list of slices derived from one mesh, bottom to top.
#[derive(Clone, Debug)]
pub struct Object {
    /// The object's slices, indexed by layer.
    pub layers: Vec<Slice>,
}

/// True when the slices stand bottom to top: indices consecutive, each
/// slice taller than its floor, and top heights never decreasing.
pub open spec fn slices_ordered(layers: Seq<Slice>) -> bool {
    &&& forall|i: int| 0 <= i < layers.len() ==> (#[trigger] layers[i]).layer_index == i
    &&& forall|i: int| 0 <= i < layers.len() ==> (#[trigger] layers[i]).bottom_height >= 0
    &&& forall|i: int|
        0 <= i < layers.len() ==> (#[trigger] layers[i]).top_height > layers[i].bottom_height
    &&& forall|i: int|
        0 < i < layers.len() ==> (#[trigger] layers[i]).top_height >= layers[i - 1].top_height
            && layers[i].bottom_height == layers[i - 1].top_height
}

/// The bottom height of layer `k` under the settings: layer zero starts at
/// zero and each further layer starts at the previous layer's top, its
/// bottom plus its resolved layer height, clamped into `i64`.
pub open spec fn bottom_at(s: Settings, k: nat) -> int
    decreases k,
{
    if k == 0 {
        0
    } else {
        let b = bottom_at(s, (k - 1) as nat);
        let lh = s.layer_settings_spec(((k - 1) as nat) as usize, b as i64).layer_height as int;
        if b + lh > i64::MAX as int {
            i64::MAX as int
        } else {
            b + lh
        }
    }
}

/// The middle height of layer `k`: its bottom plus half its resolved layer
/// height, clamped into `i64`.  The sweep plane cuts each layer here.
pub open spec fn mid_at(s: Settings, k: nat) -> int {
    let b = bottom_at(s, k);
    let lh = s.layer_settings_spec(k as usize, b as i64).layer_height as int;
    if b + lh / 2 > i64::MAX as int {
        i64::MAX as int
    } else {
        b + lh / 2
    }
}

/// The sweep state of a tower once layer `k` has been cut: the events not
/// yet passed and the active rings, after advancing through the middle of
/// every layer up to and including `k`; `None` once an advance has left a
/// ring open.
pub open spec fn sweep_state_at(t: TriangleTower, s: Settings, k: nat) -> Option<
    (Multiset<EventKey>, Seq<Seq<TowerRingElement>>),
>
    decreases k,
{
    if k == 0 {
        sweep_to(
            tower_frag_map(t),
            heap_contents(t.heap),
            Seq::empty(),
            mid_at(s, 0),
        )
    } else {
        match sweep_state_at(t, s, (k - 1) as nat) {
            None => None,
            Some(st) => sweep_to(tower_frag_map(t), st.0, st.1, mid_at(s, k)),
        }
    }
}

/// True when the slice is the plane cut of the tower's sweep at layer `k`:
/// the sweep reaches the layer, the slice starts at the layer's bottom, and
/// its cross-section holds one closed crossing-point loop per active ring,
/// taken at the layer's middle.
pub open spec fn slice_matches_tower(sl: Slice, t: TriangleTower, s: Settings, k: nat) -> bool {
    let st = sweep_state_at(t, s, k);
    &&& st is Some
    &&& sl.bottom_height as int == bottom_at(s, k)
    &&& sl.main_polygon@.len() == st.unwrap().1.len()
    &&& forall|li: int|
        0 <= li < st.unwrap().1.len() ==> (#[trigger] sl.main_polygon@[li])@ == close_loop(
            ring_points(st.unwrap().1[li], mid_at(s, k), t.vertices@),
        )
}

/// True when the sweep over the tower is exhausted after cutting `count`
/// layers: the state is reached and no event remains to pass.
pub open spec fn sweep_finished(t: TriangleTower, s: Settings, count: nat) -> bool {
    let st = sweep_state_at(t, s, count);
    &&& st is Some
    &&& st.unwrap().0 == Multiset::<EventKey>::empty()
}

/// The little validity the driver needs: the global layer height is
/// positive and so is every overlay's.
pub open spec fn settings_usable(s: Settings) -> bool {
    &&& s.layer_height > 0
    &&& forall|i: int|
        0 <= i < s.layer_settings@.len() ==> (match (#[trigger] s.layer_settings@[i]).1
            .layer_height {
            Some(lh) => lh > 0,
            None => true,
        })
}

/// Fully valid settings are usable.
pub proof fn lemma_valid_usable(s: Settings)
    requires
        settings_valid(s),
    ensures
        settings_usable(s),
{
    assert forall|i: int| 0 <= i < s.layer_settings@.len() implies (match (
    #[trigger] s.layer_settings@[i]).1.layer_height {
        Some(lh) => lh > 0,
        None => true,
    }) by {
        assert(crate::settings::override_ok(s, s.layer_settings@[i].1));
    }
}

/// Decides whether the settings are usable.
pub fn settings_usable_exec(s: &Settings) -> (r: bool)
    ensures
        r == settings_usable(*s),
{
    if s.layer_height <= 0 {
        return false;
    }
    let mut i: usize = 0;
    while i < s.layer_settings.len()
        invariant
            i <= s.layer_settings@.len(),
            s.layer_height > 0,
            forall|k: int|
                0 <= k < i ==> (match (#[trigger] s.layer_settings@[k]).1.layer_height {
                    Some(lh) => lh > 0,
                    None => true,
                }),
        decreases s.layer_settings@.len() - i,
    {
        match s.layer_settings[i].1.layer_height {
            Some(lh) => {
                if lh <= 0 {
                    return false;
                }
            },
            None => {},
        }
        i = i + 1;
    }
    true
}

/// A set field of the folded overlays comes from one of the entries.
proof fn lemma_fold_layer_height_provenance(
    entries: Seq<(crate::settings::LayerRange, PartialLayerSettings)>,
    layer: usize,
    height: i64,
)
    ensures
        fold_overrides(entries, layer, height).layer_height is Some ==> exists|i: int|
            0 <= i < entries.len() && (#[trigger] entries[i]).1.layer_height == fold_overrides(
                entries,
                layer,
                height,
            ).layer_height,
    decreases entries.len(),
{
    if entries.len() != 0 {
        lemma_fold_layer_height_provenance(entries.drop_last(), layer, height);
        let pre = fold_overrides(entries.drop_last(), layer, height);
        let whole = fold_overrides(entries, layer, height);
        if whole.layer_height is Some {
            if pre.layer_height is Some {
                let i = choose|i: int|
                    0 <= i < entries.drop_last().len() && (#[trigger] entries.drop_last()[i]).1
                        .layer_height == pre.layer_height;
                assert(entries[i] == entries.drop_last()[i]);
                assert(entries[i].1.layer_height == whole.layer_height);
            } else {
                assert(entries[entries.len() - 1] == entries.last());
                assert(entries.last().1.layer_height == whole.layer_height);
            }
        }
    }
}

/// Valid settings resolve every layer to a strictly positive height.
pub proof fn lemma_resolved_layer_height_positive(s: Settings, layer: usize, height: i64)
    requires
        settings_usable(s),
    ensures
        s.layer_settings_spec(layer, height).layer_height > 0,
{
    lemma_fold_layer_height_provenance(s.layer_settings@, layer, height);
    let c = fold_overrides(s.layer_settings@, layer, height);
    if c.layer_height is Some {
        let i = choose|i: int|
            0 <= i < s.layer_settings@.len() && (#[trigger] s.layer_settings@[i]).1.layer_height
                == c.layer_height;
        assert((match s.layer_settings@[i].1.layer_height {
            Some(lh) => lh > 0,
            None => true,
        }));
    }
}

/// Slices every tower: for each layer, the sweep advances to the layer's
/// middle and the plane's crossing loops become the layer's cross-section.
/// Slices come back bottom to top with consecutive indices and strictly
/// growing heights.
#[verifier::rlimit(50)]
pub fn slice(towers: Vec<TriangleTower>, settings: &Settings) -> (r: Result<
    Vec<Object>,
    SlicerErrors,
>)
    requires
        settings_usable(*settings),
        forall|m: int| 0 <= m < towers@.len() ==> tower_wf(#[trigger] towers@[m]),
    ensures
        (match r {
            Ok(objects) => {
                &&& objects@.len() == towers@.len()
                &&& forall|m: int|
                    0 <= m < objects@.len() ==> slices_ordered((#[trigger] objects@[m]).layers@)
                &&& forall|m: int|
                    0 <= m < objects@.len() && (#[trigger] objects@[m]).layers@.len() > 0
                        ==> objects@[m].layers@[0].bottom_height == 0
                &&& forall|m: int, k: int|
                    0 <= m < objects@.len() && 0 <= k < objects@[m].layers@.len() ==> {
                        let s = #[trigger] objects@[m].layers@[k];
                        let lh = settings.layer_settings_spec(
                            s.layer_index,
                            s.bottom_height,
                        ).layer_height;
                        s.top_height as int == (if s.bottom_height + lh > i64::MAX {
                            i64::MAX as int
                        } else {
                            s.bottom_height + lh
                        })
                    }
                &&& forall|m: int, k: int|
                    0 <= m < objects@.len() && 0 <= k < objects@[m].layers@.len()
                        ==> slice_matches_tower(
                        #[trigger] objects@[m].layers@[k],
                        towers@[m],
                        *settings,
                        k as nat,
                    )
                &&& forall|m: int|
                    0 <= m < objects@.len() ==> sweep_finished(
                        towers@[m],
                        *settings,
                        (#[trigger] objects@[m]).layers@.len() as nat,
                    )
            },
            Err(e) => e == SlicerErrors::TowerGeneration,
        }),
        (forall|m: int|
            0 <= m < towers@.len() ==> crate::heap::heap_contents((#[trigger] towers@[m]).heap)
                == vstd::multiset::Multiset::<crate::heap::EventKey>::empty()) ==> r is Ok,
{
    let ghost total = towers@.len();
    let mut remaining = towers;
    let mut objects: Vec<Object> = Vec::new();
    while remaining.len() > 0
        invariant
            total == towers@.len(),
            objects@.len() + remaining@.len() == total,
            settings_usable(*settings),
            forall|m: int| 0 <= m < remaining@.len() ==> tower_wf(#[trigger] remaining@[m]),
            forall|m: int| 0 <= m < remaining@.len() ==> #[trigger] remaining@[m] == towers@[m
                + objects@.len()],
            forall|m: int|
                0 <= m < objects@.len() ==> slices_ordered((#[trigger] objects@[m]).layers@),
            forall|m: int|
                0 <= m < objects@.len() && (#[trigger] objects@[m]).layers@.len() > 0
                    ==> objects@[m].layers@[0].bottom_height == 0,
            forall|m: int, k: int|
                0 <= m < objects@.len() && 0 <= k < objects@[m].layers@.len() ==> {
                    let s = #[trigger] objects@[m].layers@[k];
                    let lh = settings.layer_settings_spec(
                        s.layer_index,
                        s.bottom_height,
                    ).layer_height;
                    s.top_height as int == (if s.bottom_height + lh > i64::MAX {
                        i64::MAX as int
                    } else {
                        s.bottom_height + lh
                    })
                },
            forall|m: int, k: int|
                0 <= m < objects@.len() && 0 <= k < objects@[m].layers@.len()
                    ==> slice_matches_tower(
                    #[trigger] objects@[m].layers@[k],
                    towers@[m],
                    *settings,
                    k as nat,
                ),
            forall|m: int|
                0 <= m < objects@.len() ==> sweep_finished(
                    towers@[m],
                    *settings,
                    (#[trigger] objects@[m]).layers@.len() as nat,
                ),
        decreases remaining@.len(),
    {
        let ghost pre_remaining = remaining@;
        let tower = remaining.remove(0);
        let ghost tower0 = tower;
        proof {
            assert(forall|m: int|
                0 <= m < remaining@.len() ==> remaining@[m] == pre_remaining[m + 1]);
            assert(tower0 == towers@[objects@.len() as int]);
        }
        let mut tower_iter = TriangleTowerIterator::new(tower);
        let mut layers: Vec<Slice> = Vec::new();
        let mut layer: i64 = 0;
        let mut layer_count: usize = 0;
        let mut done: bool = false;
        proof {
            assert(rings_view(tower_iter.active_rings@) =~= Seq::<Seq<TowerRingElement>>::empty());
        }
        while !done
            invariant
                settings_usable(*settings),
                iter_inv(tower_iter),
                tower_iter.tower.vertices == tower0.vertices,
                tower_iter.tower.tower_vertices == tower0.tower_vertices,
                layer as int == bottom_at(*settings, layer_count as nat),
                forall|k: int|
                    0 <= k < layers@.len() ==> slice_matches_tower(
                        #[trigger] layers@[k],
                        tower0,
                        *settings,
                        k as nat,
                    ),
                !done && layers@.len() == 0 ==> heap_contents(tower_iter.tower.heap)
                    == heap_contents(tower0.heap) && rings_view(tower_iter.active_rings@)
                    == Seq::<Seq<TowerRingElement>>::empty(),
                !done && layers@.len() > 0 ==> Some(
                    (
                        heap_contents(tower_iter.tower.heap),
                        rings_view(tower_iter.active_rings@),
                    ),
                ) == sweep_state_at(tower0, *settings, (layers@.len() - 1) as nat),
                done ==> sweep_finished(tower0, *settings, layers@.len() as nat),
                0 <= layer,
                slices_ordered(layers@),
                layers@.len() == layer_count,
                layers@.len() > 0 ==> layers@[layers@.len() - 1].top_height == layer,
                layers@.len() == 0 ==> layer == 0,
                layers@.len() > 0 ==> layers@[0].bottom_height == 0,
                forall|k: int|
                    0 <= k < layers@.len() ==> {
                        let s = #[trigger] layers@[k];
                        let lh = settings.layer_settings_spec(
                            s.layer_index,
                            s.bottom_height,
                        ).layer_height;
                        s.top_height as int == (if s.bottom_height + lh > i64::MAX {
                            i64::MAX as int
                        } else {
                            s.bottom_height + lh
                        })
                    },
                (forall|m2: int|
                    0 <= m2 < towers@.len() ==> crate::heap::heap_contents(
                        (#[trigger] towers@[m2]).heap,
                    ) == vstd::multiset::Multiset::<crate::heap::EventKey>::empty())
                    ==> crate::heap::heap_contents(tower_iter.tower.heap)
                    == vstd::multiset::Multiset::<crate::heap::EventKey>::empty(),
            decreases (if layer <= MAX_COORD {
                2 * MAX_COORD + 2 - layer
            } else {
                0int
            }), (if done {
                0int
            } else {
                1int
            }),
        {
            let ghost pre_layer = layer;
            let layer_settings = settings.get_layer_settings(layer_count, layer);
            proof {
                lemma_resolved_layer_height_positive(*settings, layer_count, layer);
            }
            let lh: i64 = layer_settings.layer_height;
            let bottom: i64 = layer;
            let half: i64 = lh / 2;
            let mid128: i128 = bottom as i128 + half as i128;
            let mid: i64 = if mid128 > i64::MAX as i128 {
                i64::MAX
            } else {
                mid128 as i64
            };
            let top128: i128 = bottom as i128 + lh as i128;
            let top: i64 = if top128 > i64::MAX as i128 {
                i64::MAX
            } else {
                top128 as i64
            };
            let ghost k0 = layer_count as nat;
            proof {
                assert(bottom_at(*settings, k0) == layer as int);
                assert((*settings).layer_settings_spec(layer_count, layer).layer_height == lh);
                assert(mid as int == mid_at(*settings, k0));
                assert(top as int == bottom_at(*settings, k0 + 1));
            }
            let ghost pre_c = heap_contents(tower_iter.tower.heap);
            let ghost pre_a = rings_view(tower_iter.active_rings@);
            let ghost pre_it_tower = tower_iter.tower;
            match tower_iter.advance_to_height(mid) {
                Ok(_) => {},
                Err(e) => {
                    return Err(e);
                },
            }
            proof {
                assert(tower_frag_map(pre_it_tower) == tower_frag_map(tower0));
                assert(Some(
                    (
                        heap_contents(tower_iter.tower.heap),
                        rings_view(tower_iter.active_rings@),
                    ),
                ) == sweep_to(tower_frag_map(tower0), pre_c, pre_a, mid as int));
                if layer_count == 0 {
                    assert(pre_c == heap_contents(tower0.heap));
                    assert(pre_a == Seq::<Seq<TowerRingElement>>::empty());
                    assert(sweep_state_at(tower0, *settings, k0) == sweep_to(
                        tower_frag_map(tower0),
                        heap_contents(tower0.heap),
                        Seq::empty(),
                        mid_at(*settings, 0),
                    ));
                } else {
                    assert(sweep_state_at(tower0, *settings, (k0 - 1) as nat) == Some(
                        (pre_c, pre_a),
                    ));
                }
                assert(sweep_state_at(tower0, *settings, k0) == Some(
                    (
                        heap_contents(tower_iter.tower.heap),
                        rings_view(tower_iter.active_rings@),
                    ),
                ));
            }
            if tower_iter.is_finished() {
                proof {
                    assert(sweep_finished(tower0, *settings, layers@.len() as nat));
                }
                done = true;
            } else {
                proof {
                    // Some event remains, so some bounded vertex height is at
                    // or above the middle of this layer.
                    let contents = crate::heap::heap_contents(tower_iter.tower.heap);
                    assert(contents != vstd::multiset::Multiset::<crate::heap::EventKey>::empty());
                    let k = contents.choose();
                    assert(contents.contains(k)) by {
                        if contents.len() == 0 {
                            assert(contents =~= vstd::multiset::Multiset::<
                                crate::heap::EventKey,
                            >::empty());
                        }
                    }
                    assert(k.0 >= mid);
                    assert(crate::geometry::vert_bounded(
                        tower_iter.tower.vertices@[k.3 as int],
                    ));
                    assert(k.0 <= MAX_COORD);
                    assert(mid <= MAX_COORD);
                }
                let loops = tower_iter.get_points();
                let new_slice = Slice {
                    main_polygon: loops,
                    bottom_height: bottom,
                    top_height: top,
                    layer_index: layer_count,
                    chains: Vec::new(),
                };
                let ghost pre_layers = layers@;
                let ghost ns = new_slice;
                layers.push(new_slice);
                layer = top;
                layer_count = layers.len();
                proof {
                    assert(slice_matches_tower(ns, tower0, *settings, k0)) by {
                        let st = sweep_state_at(tower0, *settings, k0);
                        assert(st is Some);
                        assert(st.unwrap().1 == rings_view(tower_iter.active_rings@));
                        assert(ns.main_polygon@.len() == rings_view(
                            tower_iter.active_rings@,
                        ).len());
                        assert(ns.bottom_height as int == bottom_at(*settings, k0));
                        assert forall|li: int| 0 <= li < st.unwrap().1.len() implies (
                        #[trigger] ns.main_polygon@[li])@ == close_loop(
                            ring_points(st.unwrap().1[li], mid_at(*settings, k0), tower0.vertices@),
                        ) by {
                            assert(ns.main_polygon@[li]@ == close_loop(
                                ring_points(
                                    tower_iter.active_rings@[li]@,
                                    tower_iter.z_height as int,
                                    tower_iter.tower.vertices@,
                                ),
                            ));
                            assert(rings_view(tower_iter.active_rings@)[li]
                                == tower_iter.active_rings@[li]@);
                            assert(tower_iter.z_height == mid);
                        }
                    }
                    assert forall|kk: int| 0 <= kk < layers@.len() implies slice_matches_tower(
                        #[trigger] layers@[kk],
                        tower0,
                        *settings,
                        kk as nat,
                    ) by {
                        if kk < pre_layers.len() {
                            assert(layers@[kk] == pre_layers[kk]);
                        } else {
                            assert(layers@[kk] == ns);
                            assert(kk as nat == k0);
                        }
                    }
                    assert forall|i: int| 0 <= i < layers@.len() implies (#[trigger] layers@[i])
                        .layer_index == i by {
                        if i < pre_layers.len() {
                            assert(layers@[i] == pre_layers[i]);
                        }
                    }
                    assert forall|i: int| 0 <= i < layers@.len() implies (#[trigger] layers@[i])
                        .bottom_height >= 0 by {
                        if i < pre_layers.len() {
                            assert(layers@[i] == pre_layers[i]);
                        }
                    }
                    assert forall|i: int| 0 <= i < layers@.len() implies (#[trigger] layers@[i])
                        .top_height > layers@[i].bottom_height by {
                        if i < pre_layers.len() {
                            assert(layers@[i] == pre_layers[i]);
                        }
                    }
                    assert forall|i: int| 0 < i < layers@.len() implies (#[trigger] layers@[i])
                        .top_height >= layers@[i - 1].top_height && layers@[i].bottom_height
                        == layers@[i - 1].top_height by {
                        if i < pre_layers.len() {
                            assert(layers@[i] == pre_layers[i]);
                            assert(layers@[i - 1] == pre_layers[i - 1]);
                        } else {
                            if i > 0 && i - 1 < pre_layers.len() {
                                assert(layers@[i - 1] == pre_layers[i - 1]);
                            }
                        }
                    }
                }
            }
        }
        let ghost pre_objects = objects@;
        let ghost finished_layers = layers@;
        objects.push(Object { layers });
        proof {
            assert forall|m: int, k: int|
                0 <= m < objects@.len() && 0 <= k < objects@[m].layers@.len()
                    implies slice_matches_tower(
                #[trigger] objects@[m].layers@[k],
                towers@[m],
                *settings,
                k as nat,
            ) by {
                if m < pre_objects.len() {
                    assert(objects@[m] == pre_objects[m]);
                } else {
                    assert(objects@[m].layers@ == finished_layers);
                    assert(towers@[m] == tower0);
                }
            }
            assert forall|m: int| 0 <= m < objects@.len() implies sweep_finished(
                towers@[m],
                *settings,
                (#[trigger] objects@[m]).layers@.len() as nat,
            ) by {
                if m < pre_objects.len() {
                    assert(objects@[m] == pre_objects[m]);
                } else {
                    assert(objects@[m].layers@ == finished_layers);
                    assert(towers@[m] == tower0);
                }
            }
        }
    }
    Ok(objects)
}

} // verus!
