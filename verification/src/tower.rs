//! The triangle tower: the event-ordered representation of a mesh that the
//! sweep-plane slicer walks.  Rings are cyclic sequences of edge and face
//! elements; fragments are open pieces of rings that joining closes.

use vstd::multiset::Multiset;
use vstd::prelude::*;

use crate::commands::Point2;
use crate::errors::SlicerErrors;
use crate::geometry::{line_z_point, line_z_intersection, vert_bounded, vert_lt, vertex_less,
    IndexedTriangle, Vertex};
use crate::heap::{heap_contents, heap_new, heap_peek, heap_pop, heap_push, EventKey};

verus! {

/// One element of a ring: an edge between two vertices, or a face.
/// Edges are identified by their vertex indices, faces by their triangle
/// index.
#[derive(Clone, Copy, Debug, PartialEq, Eq, Structural, Hash)]
pub enum TowerRingElement {
    /// A face of the mesh.
    Face {
        /// Index of the triangle.
        triangle_index: usize,
    },
    /// An edge of the mesh, directed from its lower vertex to its upper.
    Edge {
        /// Index of the lower vertex.
        start_index: usize,
        /// Index of the upper vertex.
        end_index: usize,
    },
}

/// A ring or ring fragment: elements alternate between edges and faces.  A
/// complete ring repeats its first element at the end.
#[derive(Clone, Debug, PartialEq)]
pub struct TowerRing {
    /// The elements, in ring order.
    pub elements: Vec<TowerRingElement>,
}

impl View for TowerRing {
    type V = Seq<TowerRingElement>;

    open spec fn view(&self) -> Seq<TowerRingElement> {
        self.elements@
    }
}

/// The views of a list of rings, in order.
pub open spec fn rings_view(s: Seq<TowerRing>) -> Seq<Seq<TowerRingElement>> {
    s.map_values(|r: TowerRing| r@)
}

/// True when the ring is closed: its first element returns at the end and
/// it is long enough to enclose something.
pub open spec fn ring_complete(r: Seq<TowerRingElement>) -> bool {
    r.len() > 3 && r[0] == r[r.len() - 1]
}

impl TowerRing {
    /// Decides whether the ring is closed.
    pub fn is_complete_ring(&self) -> (r: bool)
        ensures
            r == ring_complete(self@),
    {
        self.elements.len() > 3 && self.elements[0] == self.elements[self.elements.len() - 1]
    }

    /// Extends `first` with all but the first element of `second`, which
    /// repeats `first`'s last element as the joining seam.
    pub fn join_rings_in_place(first: &mut TowerRing, second: &TowerRing)
        requires
            second@.len() >= 1,
        ensures
            final(first)@ == old(first)@ + second@.skip(1),
    {
        let mut k: usize = 1;
        while k < second.elements.len()
            invariant
                1 <= k <= second@.len(),
                first@ == old(first)@ + second@.subrange(1, k as int),
            decreases second@.len() - k,
        {
            first.elements.push(second.elements[k]);
            proof {
                assert(first@ =~= old(first)@ + second@.subrange(1, k + 1));
            }
            k = k + 1;
        }
        proof {
            assert(second@.subrange(1, second@.len() as int) =~= second@.skip(1));
        }
    }
}

/// True when the element is an edge ending at the given vertex: the edges
/// that vanish when the sweep passes that vertex.
pub open spec fn is_cut(e: TowerRingElement, edge: usize) -> bool {
    match e {
        TowerRingElement::Edge { end_index, .. } => end_index == edge,
        _ => false,
    }
}

/// The scan phase of splitting: walk the elements, cutting at every edge
/// that ends at `edge`; yields the closed-off pieces and the piece still
/// open at the end.
pub open spec fn split_scan(s: Seq<TowerRingElement>, edge: usize) -> (
    Seq<Seq<TowerRingElement>>,
    Seq<TowerRingElement>,
)
    decreases s.len(),
{
    if s.len() == 0 {
        (Seq::empty(), Seq::empty())
    } else {
        let (f, c) = split_scan(s.drop_last(), edge);
        if is_cut(s.last(), edge) {
            (f.push(c), Seq::<TowerRingElement>::empty())
        } else {
            (f, c.push(s.last()))
        }
    }
}

/// Keeps the fragments long enough to matter: single elements end at the
/// cut vertex and are dropped.
pub open spec fn keep_big(s: Seq<Seq<TowerRingElement>>) -> Seq<Seq<TowerRingElement>>
    decreases s.len(),
{
    if s.len() == 0 {
        Seq::empty()
    } else {
        let pre = keep_big(s.drop_last());
        if s.last().len() > 1 {
            pre.push(s.last())
        } else {
            pre
        }
    }
}

/// What splitting a ring on a vertex's edges produces: the scan pieces,
/// with the trailing open piece wrapped around to the front piece (the ring
/// is cyclic), then pieces of one element dropped.
pub open spec fn split_spec(s: Seq<TowerRingElement>, edge: usize) -> Seq<Seq<TowerRingElement>> {
    let (f, c) = split_scan(s, edge);
    let joined = if f.len() == 0 {
        seq![c]
    } else {
        if f[0].len() == 0 {
            f.update(0, c)
        } else {
            f.update(0, c + f[0].skip(1))
        }
    };
    keep_big(joined)
}

impl TowerRing {
    /// Splits the ring at every edge ending at `edge`, producing open
    /// fragments; the cyclic seam is rejoined across the ring's ends.
    pub fn split_on_edge(self, edge: usize) -> (r: Vec<TowerRing>)
        ensures
            rings_view(r@) == split_spec(self@, edge),
    {
        let ghost orig: Seq<TowerRingElement> = self@;
        let mut frags: Vec<TowerRing> = Vec::new();
        let mut cur: Vec<TowerRingElement> = Vec::new();
        let elements = self.elements;
        let mut i: usize = 0;
        while i < elements.len()
            invariant
                i <= elements@.len(),
                orig == elements@,
                rings_view(frags@) == split_scan(orig.take(i as int), edge).0,
                cur@ == split_scan(orig.take(i as int), edge).1,
            decreases elements@.len() - i,
        {
            let e = elements[i];
            proof {
                assert(orig.take(i + 1).drop_last() =~= orig.take(i as int));
                assert(orig.take(i + 1).last() == orig[i as int]);
            }
            let ghost pre_frags = frags@;
            let is_cut_here: bool = match e {
                TowerRingElement::Edge { end_index, .. } => end_index == edge,
                _ => false,
            };
            if is_cut_here {
                frags.push(TowerRing { elements: cur });
                cur = Vec::new();
                proof {
                    assert(rings_view(frags@) =~= split_scan(orig.take(i + 1), edge).0);
                }
            } else {
                cur.push(e);
                proof {
                    assert(rings_view(frags@) =~= split_scan(orig.take(i + 1), edge).0);
                }
            }
            i = i + 1;
        }
        proof {
            assert(orig.take(orig.len() as int) =~= orig);
        }
        let ghost scan_frags = split_scan(orig, edge).0;
        let ghost scan_cur = split_scan(orig, edge).1;
        let mut joined: Vec<TowerRing>;
        if frags.len() == 0 {
            joined = Vec::new();
            joined.push(TowerRing { elements: cur });
            proof {
                assert(rings_view(joined@) =~= seq![scan_cur]);
            }
        } else {
            let first = frags.remove(0);
            if first.elements.len() == 0 {
                frags.insert(0, TowerRing { elements: cur });
                proof {
                    assert(rings_view(frags@) =~= scan_frags.update(0, scan_cur));
                }
            } else {
                let mut merged = TowerRing { elements: cur };
                TowerRing::join_rings_in_place(&mut merged, &first);
                frags.insert(0, merged);
                proof {
                    assert(rings_view(frags@) =~= scan_frags.update(
                        0,
                        scan_cur + scan_frags[0].skip(1),
                    ));
                }
            }
            joined = frags;
        }
        let ghost joined_view = rings_view(joined@);
        let mut result: Vec<TowerRing> = Vec::new();
        let mut k: usize = 0;
        while k < joined.len()
            invariant
                k <= joined@.len(),
                joined_view == rings_view(joined@),
                rings_view(result@) == keep_big(joined_view.take(k as int)),
            decreases joined@.len() - k,
        {
            proof {
                assert(joined_view.take(k + 1).drop_last() =~= joined_view.take(k as int));
                assert(joined_view.take(k + 1).last() == joined_view[k as int]);
            }
            if joined[k].elements.len() > 1 {
                let ghost pre = result@;
                let mut copy: Vec<TowerRingElement> = Vec::new();
                let ring = &joined[k];
                let mut t: usize = 0;
                while t < ring.elements.len()
                    invariant
                        t <= ring@.len(),
                        copy@ == ring@.take(t as int),
                    decreases ring@.len() - t,
                {
                    copy.push(ring.elements[t]);
                    proof {
                        assert(copy@ =~= ring@.take(t + 1));
                    }
                    t = t + 1;
                }
                proof {
                    assert(ring@.take(ring@.len() as int) =~= ring@);
                }
                result.push(TowerRing { elements: copy });
                proof {
                    assert(rings_view(result@) =~= keep_big(joined_view.take(k + 1)));
                }
            } else {
                proof {
                    assert(rings_view(result@) =~= keep_big(joined_view.take(k + 1)));
                }
            }
            k = k + 1;
        }
        proof {
            assert(joined_view.take(joined_view.len() as int) =~= joined_view);
        }
        result
    }
}

/// True when fragment `j` can be appended to fragment `i`: `i`'s last
/// element is `j`'s first, the shared element being the seam.
pub open spec fn valid_join(frags: Seq<Seq<TowerRingElement>>, i: int, j: int) -> bool {
    &&& 0 <= i < frags.len()
    &&& 0 <= j < frags.len()
    &&& i != j
    &&& frags[i].len() > 0
    &&& frags[j].len() > 0
    &&& frags[i].last() == frags[j].first()
}

/// True when `(i, j)` is the lexicographically first join the scan finds.
pub open spec fn first_join(frags: Seq<Seq<TowerRingElement>>, i: int, j: int) -> bool {
    &&& valid_join(frags, i, j)
    &&& forall|i2: int, j2: int|
        valid_join(frags, i2, j2) ==> i < i2 || (i == i2 && j <= j2)
}

/// The fragment list after one join: `j`'s tail is appended to `i`, and
/// `j` leaves the list.
pub open spec fn join_apply(frags: Seq<Seq<TowerRingElement>>, i: int, j: int) -> Seq<
    Seq<TowerRingElement>,
> {
    frags.update(i, frags[i] + frags[j].skip(1)).remove(j)
}

/// Where some join is possible, a lexicographically first join exists.
pub proof fn lemma_first_join_exists(frags: Seq<Seq<TowerRingElement>>, i0: int, j0: int)
    requires
        valid_join(frags, i0, j0),
    ensures
        exists|i: int, j: int| first_join(frags, i, j),
    decreases i0, j0,
{
    if forall|i2: int, j2: int| valid_join(frags, i2, j2) ==> i0 < i2 || (i0 == i2 && j0 <= j2) {
        assert(first_join(frags, i0, j0));
    } else {
        let (i2, j2): (int, int) = choose|i2: int, j2: int|
            valid_join(frags, i2, j2) && !(i0 < i2 || (i0 == i2 && j0 <= j2));
        lemma_first_join_exists(frags, i2, j2);
    }
}

/// The lexicographically first join is unique.
pub proof fn lemma_first_join_unique(
    frags: Seq<Seq<TowerRingElement>>,
    i1: int,
    j1: int,
    i2: int,
    j2: int,
)
    requires
        first_join(frags, i1, j1),
        first_join(frags, i2, j2),
    ensures
        i1 == i2 && j1 == j2,
{
}

/// The fragment list after joining runs to exhaustion: while a join is
/// possible, apply the first one.
pub open spec fn join_all(frags: Seq<Seq<TowerRingElement>>) -> Seq<Seq<TowerRingElement>>
    decreases frags.len(),
{
    if exists|i: int, j: int| first_join(frags, i, j) {
        let (i, j): (int, int) = choose|i: int, j: int| first_join(frags, i, j);
        if frags.len() >= 1 {
            join_all(join_apply(frags, i, j))
        } else {
            frags
        }
    } else {
        frags
    }
}

/// Law: joining runs to exhaustion.  In the joined fragment list no
/// fragment's last element matches another fragment's first, so no further
/// join is possible: every ring that can close has closed.
pub proof fn lemma_join_all_exhausts(frags: Seq<Seq<TowerRingElement>>)
    ensures
        forall|i: int, j: int| !valid_join(join_all(frags), i, j),
    decreases frags.len(),
{
    if exists|i: int, j: int| first_join(frags, i, j) {
        let (i, j): (int, int) = choose|i: int, j: int| first_join(frags, i, j);
        assert(valid_join(frags, i, j));
        assert(frags.len() >= 1);
        assert(join_all(frags) == join_all(join_apply(frags, i, j)));
        lemma_join_all_exhausts(join_apply(frags, i, j));
    } else {
        assert forall|i: int, j: int| !valid_join(join_all(frags), i, j) by {
            if valid_join(frags, i, j) {
                lemma_first_join_exists(frags, i, j);
            }
        }
    }
}

/// Finds the first possible join, scanning rings in order.
fn find_first_join(frags: &Vec<TowerRing>) -> (r: Option<(usize, usize)>)
    ensures
        (match r {
            Some(p) => first_join(rings_view(frags@), p.0 as int, p.1 as int),
            None => forall|i: int, j: int| !valid_join(rings_view(frags@), i, j),
        }),
{
    let ghost fv = rings_view(frags@);
    let n = frags.len();
    let mut i: usize = 0;
    while i < n
        invariant
            i <= n,
            n == frags@.len(),
            fv == rings_view(frags@),
            forall|i2: int, j2: int| 0 <= i2 < i ==> !valid_join(fv, i2, j2),
        decreases n - i,
    {
        if frags[i].elements.len() > 0 {
            let last = frags[i].elements[frags[i].elements.len() - 1];
            let mut j: usize = 0;
            while j < n
                invariant
                    j <= n,
                    i < n,
                    n == frags@.len(),
                    fv == rings_view(frags@),
                    fv[i as int].len() > 0,
                    last == fv[i as int].last(),
                    forall|i2: int, j2: int| 0 <= i2 < i ==> !valid_join(fv, i2, j2),
                    forall|j2: int| 0 <= j2 < j ==> !valid_join(fv, i as int, j2),
                decreases n - j,
            {
                if j != i && frags[j].elements.len() > 0 && frags[j].elements[0] == last {
                    return Some((i, j));
                }
                j = j + 1;
            }
        } else {
            proof {
                assert(forall|j2: int| !valid_join(fv, i as int, j2));
            }
        }
        i = i + 1;
    }
    None
}

/// Joins fragmented rings until no fragment's last element matches
/// another's first: repeatedly apply the first possible join.
pub fn join_fragments(fragments: &mut Vec<TowerRing>)
    ensures
        rings_view(final(fragments)@) == join_all(rings_view(old(fragments)@)),
{
    let ghost orig = rings_view(fragments@);
    let mut done: bool = false;
    while !done
        invariant
            join_all(orig) == join_all(rings_view(fragments@)),
            done ==> rings_view(fragments@) == join_all(orig),
        decreases fragments@.len(), (if done { 0int } else { 1int }),
    {
        let ghost pre = rings_view(fragments@);
        match find_first_join(fragments) {
            None => {
                done = true;
                proof {
                    if exists|i: int, j: int| first_join(pre, i, j) {
                        let (i, j): (int, int) = choose|i: int, j: int| first_join(pre, i, j);
                        assert(valid_join(pre, i, j));
                    }
                    assert(join_all(pre) == pre);
                }
            },
            Some((i, j)) => {
                proof {
                    lemma_first_join_exists(pre, i as int, j as int);
                    let (ci, cj): (int, int) = choose|ci: int, cj: int| first_join(pre, ci, cj);
                    lemma_first_join_unique(pre, ci, cj, i as int, j as int);
                    assert(join_all(pre) == join_all(join_apply(pre, i as int, j as int)));
                }
                let second = fragments.remove(j);
                let ii: usize = if j < i {
                    i - 1
                } else {
                    i
                };
                let mut target = fragments.remove(ii);
                TowerRing::join_rings_in_place(&mut target, &second);
                fragments.insert(ii, target);
                proof {
                    assert(rings_view(fragments@) =~= join_apply(pre, i as int, j as int)) by {
                        let post = rings_view(fragments@);
                        let want = join_apply(pre, i as int, j as int);
                        assert forall|k: int| 0 <= k < post.len() implies post[k] == want[k] by {
                            assert(post[k] == fragments@[k]@);
                        }
                    }
                }
            },
        }
    }
}

/// True when the element's vertex indices lie below `n`.
pub open spec fn el_bounded(e: TowerRingElement, n: int) -> bool {
    match e {
        TowerRingElement::Edge { start_index, end_index } => start_index < n && end_index < n,
        TowerRingElement::Face { .. } => true,
    }
}

/// True when every element of the ring is bounded.
pub open spec fn ring_bounded(r: Seq<TowerRingElement>, n: int) -> bool {
    forall|k: int| 0 <= k < r.len() ==> el_bounded(#[trigger] r[k], n)
}

/// True when every ring of the list is bounded.
pub open spec fn rings_bounded(rs: Seq<Seq<TowerRingElement>>, n: int) -> bool {
    forall|k: int| 0 <= k < rs.len() ==> ring_bounded(#[trigger] rs[k], n)
}

/// Splitting preserves boundedness: every output element is an input
/// element.
pub proof fn lemma_split_scan_bounded(s: Seq<TowerRingElement>, edge: usize, n: int)
    requires
        ring_bounded(s, n),
    ensures
        rings_bounded(split_scan(s, edge).0, n),
        ring_bounded(split_scan(s, edge).1, n),
    decreases s.len(),
{
    if s.len() != 0 {
        assert(ring_bounded(s.drop_last(), n));
        lemma_split_scan_bounded(s.drop_last(), edge, n);
    }
}

/// Dropping short fragments preserves boundedness.
pub proof fn lemma_keep_big_bounded(s: Seq<Seq<TowerRingElement>>, n: int)
    requires
        rings_bounded(s, n),
    ensures
        rings_bounded(keep_big(s), n),
    decreases s.len(),
{
    if s.len() != 0 {
        assert(rings_bounded(s.drop_last(), n));
        lemma_keep_big_bounded(s.drop_last(), n);
    }
}

/// The whole split preserves boundedness.
pub proof fn lemma_split_bounded(s: Seq<TowerRingElement>, edge: usize, n: int)
    requires
        ring_bounded(s, n),
    ensures
        rings_bounded(split_spec(s, edge), n),
{
    lemma_split_scan_bounded(s, edge, n);
    let (f, c) = split_scan(s, edge);
    let joined = if f.len() == 0 {
        seq![c]
    } else {
        if f[0].len() == 0 {
            f.update(0, c)
        } else {
            f.update(0, c + f[0].skip(1))
        }
    };
    assert(rings_bounded(joined, n)) by {
        if f.len() != 0 && f[0].len() != 0 {
            assert(ring_bounded(f[0], n));
            assert(ring_bounded(c + f[0].skip(1), n)) by {
                assert(forall|k: int|
                    0 <= k < (c + f[0].skip(1)).len() ==> #[trigger] (c + f[0].skip(1))[k] == (
                    if k < c.len() {
                        c[k]
                    } else {
                        f[0][k - c.len() + 1]
                    }));
            }
        }
    }
    lemma_keep_big_bounded(joined, n);
}

/// One join preserves boundedness.
pub proof fn lemma_join_apply_bounded(frags: Seq<Seq<TowerRingElement>>, i: int, j: int, n: int)
    requires
        rings_bounded(frags, n),
        valid_join(frags, i, j),
    ensures
        rings_bounded(join_apply(frags, i, j), n),
{
    let merged = frags[i] + frags[j].skip(1);
    assert(ring_bounded(merged, n)) by {
        assert(forall|k: int|
            0 <= k < merged.len() ==> #[trigger] merged[k] == (if k < frags[i].len() {
                frags[i][k]
            } else {
                frags[j][k - frags[i].len() + 1]
            }));
    }
}

/// Joining to exhaustion preserves boundedness.
pub proof fn lemma_join_all_bounded(frags: Seq<Seq<TowerRingElement>>, n: int)
    requires
        rings_bounded(frags, n),
    ensures
        rings_bounded(join_all(frags), n),
    decreases frags.len(),
{
    if exists|i: int, j: int| first_join(frags, i, j) {
        let (i, j): (int, int) = choose|i: int, j: int| first_join(frags, i, j);
        lemma_join_apply_bounded(frags, i, j, n);
        lemma_join_all_bounded(join_apply(frags, i, j), n);
    }
}

/// Viewing a ring list distributes over appending one ring.
pub proof fn lemma_rings_view_push(s: Seq<TowerRing>, r: TowerRing)
    ensures
        rings_view(s.push(r)) == rings_view(s).push(r@),
{
    assert forall|j: int| 0 <= j < s.len() + 1 implies rings_view(s.push(r))[j] == rings_view(
        s,
    ).push(r@)[j] by {
        if j < s.len() {
            assert(s.push(r)[j] == s[j]);
        } else {
            assert(s.push(r)[j] == r);
        }
    }
    assert(rings_view(s.push(r)) =~= rings_view(s).push(r@));
}

/// Copies a ring; the copy is known to equal the original's view.
pub fn copy_ring(r: &TowerRing) -> (c: TowerRing)
    ensures
        c@ == r@,
{
    let mut copy: Vec<TowerRingElement> = Vec::new();
    let mut t: usize = 0;
    while t < r.elements.len()
        invariant
            t <= r@.len(),
            copy@ == r@.take(t as int),
        decreases r@.len() - t,
    {
        copy.push(r.elements[t]);
        proof {
            assert(copy@ =~= r@.take(t + 1));
        }
        t = t + 1;
    }
    proof {
        assert(r@.take(r@.len() as int) =~= r@);
    }
    TowerRing { elements: copy }
}

/// A vertex's event record: its index, its coordinates, and the ring
/// fragments whose lowest endpoint it is.
#[derive(Clone, Debug)]
pub struct TowerVertex {
    /// The ring fragments introduced at this vertex.
    pub next_ring_fragments: Vec<TowerRing>,
    /// The vertex's index in the mesh.
    pub start_index: usize,
    /// The vertex's coordinates.
    pub start_vert: Vertex,
}

/// The event key of vertex `i`: its coordinates in sweep order, then its
/// index.
pub open spec fn vertex_key(v: Vertex, i: usize) -> EventKey {
    (v.z, v.y, v.x, i)
}

/// A mesh prepared for sweep-plane slicing: the vertex array, a record per
/// vertex, and the event heap of vertices not yet passed.
pub struct TriangleTower {
    /// The mesh's vertices.
    pub vertices: Vec<Vertex>,
    /// Per-vertex event records, indexed by vertex index.
    pub tower_vertices: Vec<TowerVertex>,
    /// The events not yet passed by the sweep.
    pub heap: binary_heap_plus::BinaryHeap<EventKey, binary_heap_plus::MinComparator>,
}

/// The tower's well-formedness: records line up with vertices, all ring
/// elements index real vertices, all coordinates are bounded, and the heap
/// holds genuine event keys.
pub open spec fn tower_wf(t: TriangleTower) -> bool {
    let n = t.vertices@.len() as int;
    &&& t.tower_vertices@.len() == n
    &&& forall|i: int|
        0 <= i < n ==> (#[trigger] t.tower_vertices@[i]).start_index == i
            && t.tower_vertices@[i].start_vert == t.vertices@[i] && rings_bounded(
            rings_view(t.tower_vertices@[i].next_ring_fragments@),
            n,
        )
    &&& forall|i: int| 0 <= i < n ==> vert_bounded(#[trigger] t.vertices@[i])
    &&& forall|k: EventKey|
        #[trigger] heap_contents(t.heap).contains(k) ==> 0 <= k.3 < n && k == vertex_key(
            t.vertices@[k.3 as int],
            k.3,
        )
}

/// True when every triangle's indices lie below `n`.
pub open spec fn triangles_in_range(tris: Seq<IndexedTriangle>, n: int) -> bool {
    forall|t: int|
        0 <= t < tris.len() ==> (#[trigger] tris[t]).verts@[0] < n && tris[t].verts@[1] < n
            && tris[t].verts@[2] < n
}

/// The fragment the directed edge `(u, w)` of triangle `t_idx` contributes
/// to vertex `v`: it is attached to the edge's lower endpoint, face first
/// when the edge rises from it, face last when it falls to it.
pub open spec fn edge_frag_uv(u: usize, w: usize, t_idx: usize, verts: Seq<Vertex>, v: int) -> Seq<
    Seq<TowerRingElement>,
> {
    if vert_lt(verts[u as int], verts[w as int]) {
        if u == v {
            seq![
                seq![
                    TowerRingElement::Face { triangle_index: t_idx },
                    TowerRingElement::Edge { start_index: u, end_index: w },
                ],
            ]
        } else {
            Seq::empty()
        }
    } else {
        if w == v {
            seq![
                seq![
                    TowerRingElement::Edge { start_index: w, end_index: u },
                    TowerRingElement::Face { triangle_index: t_idx },
                ],
            ]
        } else {
            Seq::empty()
        }
    }
}

/// The fragment that edge `k` of triangle `t` contributes to vertex `v`.
pub open spec fn edge_frag(
    t: IndexedTriangle,
    t_idx: usize,
    k: int,
    verts: Seq<Vertex>,
    v: int,
) -> Seq<Seq<TowerRingElement>> {
    edge_frag_uv(
        t.verts@[k],
        t.verts@[
            if k == 2 {
                0
            } else {
                k + 1
            }
        ],
        t_idx,
        verts,
        v,
    )
}

/// The fragments triangle `t` contributes to vertex `v`: one per edge,
/// attached to the edge's lower endpoint.
pub open spec fn tri_frags(t: IndexedTriangle, t_idx: usize, verts: Seq<Vertex>, v: int) -> Seq<
    Seq<TowerRingElement>,
> {
    edge_frag(t, t_idx, 0, verts, v) + edge_frag(t, t_idx, 1, verts, v) + edge_frag(
        t,
        t_idx,
        2,
        verts,
        v,
    )
}

/// All fragments attached to vertex `v`, in triangle order.
pub open spec fn vertex_fragments(
    tris: Seq<IndexedTriangle>,
    verts: Seq<Vertex>,
    v: int,
) -> Seq<Seq<TowerRingElement>>
    decreases tris.len(),
{
    if tris.len() == 0 {
        Seq::empty()
    } else {
        vertex_fragments(tris.drop_last(), verts, v) + tri_frags(
            tris.last(),
            (tris.len() - 1) as usize,
            verts,
            v,
        )
    }
}

/// A vertex's attached fragments index only real vertices.
pub proof fn lemma_vertex_fragments_bounded(tris: Seq<IndexedTriangle>, verts: Seq<Vertex>, v: int)
    requires
        triangles_in_range(tris, verts.len() as int),
    ensures
        rings_bounded(vertex_fragments(tris, verts, v), verts.len() as int),
    decreases tris.len(),
{
    let n = verts.len() as int;
    if tris.len() != 0 {
        assert(triangles_in_range(tris.drop_last(), n));
        lemma_vertex_fragments_bounded(tris.drop_last(), verts, v);
        let pre = vertex_fragments(tris.drop_last(), verts, v);
        let tf = tri_frags(tris.last(), (tris.len() - 1) as usize, verts, v);
        assert(rings_bounded(tf, n)) by {
            assert(tris[tris.len() - 1] == tris.last());
        }
        let whole = vertex_fragments(tris, verts, v);
        assert forall|k: int| 0 <= k < whole.len() implies ring_bounded(#[trigger] whole[k], n) by {
            if k < pre.len() {
                assert(whole[k] == pre[k]);
            } else {
                assert(whole[k] == tf[k - pre.len()]);
            }
        }
    }
}

/// Attaches the fragment of one directed edge to the lower endpoint's
/// fragment list.
fn attach_edge(
    future: &mut Vec<Vec<TowerRing>>,
    vertices: &Vec<Vertex>,
    u: usize,
    w: usize,
    t_idx: usize,
)
    requires
        u < vertices@.len(),
        w < vertices@.len(),
        old(future)@.len() == vertices@.len(),
    ensures
        final(future)@.len() == vertices@.len(),
        forall|v: int|
            0 <= v < vertices@.len() ==> rings_view(#[trigger] final(future)@[v]@) == rings_view(
                old(future)@[v]@,
            ) + edge_frag_uv(u, w, t_idx, vertices@, v),
{
    let ghost pre = future@;
    if vertex_less(&vertices[u], &vertices[w]) {
        let mut els: Vec<TowerRingElement> = Vec::new();
        els.push(TowerRingElement::Face { triangle_index: t_idx });
        els.push(TowerRingElement::Edge { start_index: u, end_index: w });
        let ghost ring_v: Seq<TowerRingElement> = els@;
        let slot = &mut future[u];
        slot.push(TowerRing { elements: els });
        proof {
            assert(ring_v =~= seq![
                TowerRingElement::Face { triangle_index: t_idx },
                TowerRingElement::Edge { start_index: u, end_index: w },
            ]);
            assert forall|v: int| 0 <= v < vertices@.len() implies rings_view(
                #[trigger] future@[v]@,
            ) == rings_view(pre[v]@) + edge_frag_uv(u, w, t_idx, vertices@, v) by {
                if v == u {
                    lemma_rings_view_push(pre[v]@, TowerRing { elements: els });
                    assert(rings_view(future@[v]@) =~= rings_view(pre[v]@) + edge_frag_uv(
                        u,
                        w,
                        t_idx,
                        vertices@,
                        v,
                    ));
                } else {
                    assert(future@[v] == pre[v]);
                    assert(rings_view(future@[v]@) =~= rings_view(pre[v]@) + edge_frag_uv(
                        u,
                        w,
                        t_idx,
                        vertices@,
                        v,
                    ));
                }
            }
        }
    } else {
        let mut els: Vec<TowerRingElement> = Vec::new();
        els.push(TowerRingElement::Edge { start_index: w, end_index: u });
        els.push(TowerRingElement::Face { triangle_index: t_idx });
        let ghost ring_v: Seq<TowerRingElement> = els@;
        let slot = &mut future[w];
        slot.push(TowerRing { elements: els });
        proof {
            assert(ring_v =~= seq![
                TowerRingElement::Edge { start_index: w, end_index: u },
                TowerRingElement::Face { triangle_index: t_idx },
            ]);
            assert forall|v: int| 0 <= v < vertices@.len() implies rings_view(
                #[trigger] future@[v]@,
            ) == rings_view(pre[v]@) + edge_frag_uv(u, w, t_idx, vertices@, v) by {
                if v == w {
                    lemma_rings_view_push(pre[v]@, TowerRing { elements: els });
                    assert(rings_view(future@[v]@) =~= rings_view(pre[v]@) + edge_frag_uv(
                        u,
                        w,
                        t_idx,
                        vertices@,
                        v,
                    ));
                } else {
                    assert(future@[v] == pre[v]);
                    assert(rings_view(future@[v]@) =~= rings_view(pre[v]@) + edge_frag_uv(
                        u,
                        w,
                        t_idx,
                        vertices@,
                        v,
                    ));
                }
            }
        }
    }
}

impl TriangleTower {
    /// Builds the tower of a mesh: for every triangle edge, a two-element
    /// fragment is attached to the edge's lower endpoint; each vertex's
    /// fragments are then joined, and every vertex becomes an event.
    pub fn from_triangles_and_vertices(
        triangles: &Vec<IndexedTriangle>,
        vertices: Vec<Vertex>,
    ) -> (r: Result<TriangleTower, SlicerErrors>)
        requires
            triangles_in_range(triangles@, vertices@.len() as int),
            forall|i: int| 0 <= i < vertices@.len() ==> vert_bounded(#[trigger] vertices@[i]),
        ensures
            (match r {
                Ok(t) => {
                    &&& tower_wf(t)
                    &&& t.vertices@ == vertices@
                    &&& forall|v: int|
                        0 <= v < vertices@.len() ==> rings_view(
                            (#[trigger] t.tower_vertices@[v]).next_ring_fragments@,
                        ) == join_all(vertex_fragments(triangles@, vertices@, v))
                    &&& heap_contents(t.heap) == Seq::new(
                        vertices@.len(),
                        |i: int| vertex_key(vertices@[i], i as usize),
                    ).to_multiset()
                },
                Err(_) => false,
            }),
    {
        broadcast use vstd::seq_lib::group_to_multiset_ensures;

        let n = vertices.len();
        let mut future: Vec<Vec<TowerRing>> = Vec::new();
        while future.len() < n
            invariant
                future@.len() <= n,
                forall|v: int| 0 <= v < future@.len() ==> (#[trigger] future@[v])@.len() == 0,
            decreases n - future@.len(),
        {
            future.push(Vec::new());
        }
        let mut t: usize = 0;
        while t < triangles.len()
            invariant
                t <= triangles@.len(),
                n == vertices@.len(),
                future@.len() == n,
                triangles_in_range(triangles@, n as int),
                forall|v: int|
                    0 <= v < n ==> rings_view(#[trigger] future@[v]@) == vertex_fragments(
                        triangles@.take(t as int),
                        vertices@,
                        v,
                    ),
            decreases triangles@.len() - t,
        {
            let tri = triangles[t];
            let ghost pre = future@;
            attach_edge(&mut future, &vertices, tri.verts[0], tri.verts[1], t);
            attach_edge(&mut future, &vertices, tri.verts[1], tri.verts[2], t);
            attach_edge(&mut future, &vertices, tri.verts[2], tri.verts[0], t);
            proof {
                assert(triangles@.take(t + 1).drop_last() =~= triangles@.take(t as int));
                assert(triangles@.take(t + 1).last() == triangles@[t as int]);
                assert forall|v: int| 0 <= v < n implies rings_view(#[trigger] future@[v]@)
                    == vertex_fragments(triangles@.take(t + 1), vertices@, v) by {
                    assert(rings_view(future@[v]@) =~= vertex_fragments(
                        triangles@.take(t as int),
                        vertices@,
                        v,
                    ) + tri_frags(triangles@[t as int], t, vertices@, v));
                }
            }
            t = t + 1;
        }
        proof {
            assert(triangles@.take(triangles@.len() as int) =~= triangles@);
        }
        let mut tower_vertices: Vec<TowerVertex> = Vec::new();
        let mut heap = heap_new();
        let mut i: usize = 0;
        while i < n
            invariant
                i <= n,
                n == vertices@.len(),
                future@.len() == n - i,
                triangles_in_range(triangles@, n as int),
                forall|k: int|
                    0 <= k < future@.len() ==> rings_view(#[trigger] future@[k]@)
                        == vertex_fragments(triangles@, vertices@, k + i),
                tower_vertices@.len() == i,
                forall|v: int|
                    0 <= v < i ==> (#[trigger] tower_vertices@[v]).start_index == v
                        && tower_vertices@[v].start_vert == vertices@[v] && rings_view(
                        tower_vertices@[v].next_ring_fragments@,
                    ) == join_all(vertex_fragments(triangles@, vertices@, v)),
                heap_contents(heap) == Seq::new(
                    i as nat,
                    |v: int| vertex_key(vertices@[v], v as usize),
                ).to_multiset(),
            decreases n - i,
        {
            let mut frags = future.remove(0);
            proof {
                lemma_vertex_fragments_bounded(triangles@, vertices@, i as int);
            }
            join_fragments(&mut frags);
            let v = vertices[i];
            tower_vertices.push(
                TowerVertex { next_ring_fragments: frags, start_index: i, start_vert: v },
            );
            heap_push(&mut heap, (v.z, v.y, v.x, i));
            proof {
                let keys_i = Seq::new(i as nat, |v: int| vertex_key(vertices@[v], v as usize));
                let keys_i1 = Seq::new(
                    (i + 1) as nat,
                    |v: int| vertex_key(vertices@[v], v as usize),
                );
                let vk = vertex_key(vertices@[i as int], i);
                assert(keys_i1 =~= keys_i.push(vk));
                vstd::seq_lib::to_multiset_build::<EventKey>(keys_i, vk);
                assert(keys_i.push(vk).to_multiset() =~= keys_i.to_multiset().insert(vk));
                assert(heap_contents(heap) == keys_i1.to_multiset());
            }
            i = i + 1;
        }
        let result = TriangleTower { vertices, tower_vertices, heap };
        proof {
            assert(tower_wf(result)) by {
                let keys = Seq::new(
                    result.vertices@.len(),
                    |v: int| vertex_key(result.vertices@[v], v as usize),
                );
                assert forall|k: EventKey| #[trigger]
                    heap_contents(result.heap).contains(k) implies 0 <= k.3
                    < result.vertices@.len() && k == vertex_key(
                    result.vertices@[k.3 as int],
                    k.3,
                ) by {
                    assert(keys.to_multiset().contains(k));
                    assert(keys.contains(k));
                    let w = choose|w: int| 0 <= w < keys.len() && keys[w] == k;
                    assert(k == vertex_key(result.vertices@[w], w as usize));
                }
                assert forall|v: int| 0 <= v < result.vertices@.len() implies rings_bounded(
                    rings_view((#[trigger] result.tower_vertices@[v]).next_ring_fragments@),
                    result.vertices@.len() as int,
                ) by {
                    lemma_vertex_fragments_bounded(triangles@, vertices@, v);
                    lemma_join_all_bounded(
                        vertex_fragments(triangles@, vertices@, v),
                        result.vertices@.len() as int,
                    );
                }
            }
        }
        Ok(result)
    }

    /// The height of the lowest vertex the sweep has not yet passed, or the
    /// largest representable height when none is left.
    pub fn get_height_of_next_vertex(&self) -> (r: i64)
        ensures
            heap_contents(self.heap) == Multiset::<EventKey>::empty() ==> r == i64::MAX,
            heap_contents(self.heap) != Multiset::<EventKey>::empty() ==> (exists|k: EventKey|
                heap_contents(self.heap).contains(k) && k.0 == r) && (forall|k: EventKey|
                heap_contents(self.heap).contains(k) ==> r <= k.0),
    {
        match heap_peek(&self.heap) {
            Some(k) => {
                proof {
                    assert(heap_contents(self.heap).count(k) > 0);
                    assert(Multiset::<EventKey>::empty().count(k) == 0);
                    assert forall|x: EventKey|
                        heap_contents(self.heap).contains(x) implies k.0 <= x.0 by {
                        assert(crate::heap::key_le(k, x));
                    }
                }
                k.0
            },
            None => i64::MAX,
        }
    }
}

/// The plane crossings of a ring's edges, walked element by element: each
/// edge whose endpoints span the plane contributes its intersection point.
pub open spec fn ring_points_walk(
    ring: Seq<TowerRingElement>,
    z: int,
    verts: Seq<Vertex>,
    acc: Seq<Point2>,
) -> Seq<Point2>
    decreases ring.len(),
{
    if ring.len() == 0 {
        acc
    } else {
        match ring[0] {
            TowerRingElement::Edge { start_index, end_index } => {
                let a = verts[start_index as int];
                let b = verts[end_index as int];
                if a.z < b.z && a.z <= z <= b.z {
                    ring_points_walk(ring.skip(1), z, verts, acc.push(line_z_point(z, a, b)))
                } else {
                    ring_points_walk(ring.skip(1), z, verts, acc)
                }
            },
            TowerRingElement::Face { .. } => ring_points_walk(ring.skip(1), z, verts, acc),
        }
    }
}

/// The plane crossings of a ring's edges, in ring order.
pub open spec fn ring_points(ring: Seq<TowerRingElement>, z: int, verts: Seq<Vertex>) -> Seq<
    Point2,
> {
    ring_points_walk(ring, z, verts, Seq::empty())
}

/// A point run closed into a loop: the first point is repeated at the end
/// unless the run already returns to it.
pub open spec fn close_loop(ps: Seq<Point2>) -> Seq<Point2> {
    if ps.len() == 0 {
        ps
    } else if ps.len() == 1 {
        ps.push(ps[0])
    } else if ps.last() == ps[0] {
        ps
    } else {
        ps.push(ps[0])
    }
}

/// True when every ring of the list is complete.
pub open spec fn rings_complete(rs: Seq<Seq<TowerRingElement>>) -> bool {
    forall|k: int| 0 <= k < rs.len() ==> ring_complete(#[trigger] rs[k])
}

/// The splits of every active ring on the edges ending at vertex `idx`,
/// concatenated in ring order.
pub open spec fn splits_flat(actives: Seq<Seq<TowerRingElement>>, idx: usize) -> Seq<
    Seq<TowerRingElement>,
>
    decreases actives.len(),
{
    if actives.len() == 0 {
        Seq::empty()
    } else {
        split_spec(actives[0], idx) + splits_flat(actives.skip(1), idx)
    }
}

/// The per-vertex fragment lists a tower carries, as views, indexed by
/// vertex index.
pub open spec fn tower_frag_map(t: TriangleTower) -> Seq<Seq<Seq<TowerRingElement>>> {
    t.tower_vertices@.map_values(|tv: TowerVertex| rings_view(tv.next_ring_fragments@))
}

/// A least event key of the multiset, when one exists.
pub open spec fn min_event(c: Multiset<EventKey>) -> EventKey {
    choose|k: EventKey|
        c.contains(k) && (forall|x: EventKey|
            #[trigger] c.contains(x) ==> crate::heap::key_le(k, x))
}

/// A contained key below every contained key is the least event.
pub proof fn lemma_min_event_is(c: Multiset<EventKey>, k: EventKey)
    requires
        c.contains(k),
        forall|x: EventKey| #[trigger] c.contains(x) ==> crate::heap::key_le(k, x),
    ensures
        min_event(c) == k,
{
    assert(exists|q: EventKey|
        c.contains(q) && (forall|x: EventKey|
            #[trigger] c.contains(x) ==> crate::heap::key_le(q, x)));
    let m = min_event(c);
    assert(c.contains(m) && (forall|x: EventKey|
        #[trigger] c.contains(x) ==> crate::heap::key_le(m, x)));
    assert(crate::heap::key_le(k, m));
    assert(crate::heap::key_le(m, k));
    assert(m.0 == k.0 && m.1 == k.1 && m.2 == k.2 && m.3 == k.3);
}

/// One sweep event at vertex `idx`: the active rings split on the vertex's
/// vanishing edges, the vertex's fragments appended, and the pieces joined
/// to exhaustion.
pub open spec fn sweep_step(
    fm: Seq<Seq<Seq<TowerRingElement>>>,
    actives: Seq<Seq<TowerRingElement>>,
    idx: usize,
) -> Seq<Seq<TowerRingElement>> {
    join_all(splits_flat(actives, idx) + fm[idx as int])
}

/// Runs the sweep from a state up to height `z`: events strictly below `z`
/// pass from least to greatest, stepping the active rings at each; `None`
/// when a step leaves some ring open.
pub open spec fn sweep_to(
    fm: Seq<Seq<Seq<TowerRingElement>>>,
    c: Multiset<EventKey>,
    actives: Seq<Seq<TowerRingElement>>,
    z: int,
) -> Option<(Multiset<EventKey>, Seq<Seq<TowerRingElement>>)>
    decreases c.len(),
    via sweep_to_decreases
{
    if exists|k: EventKey| c.contains(k) && k.0 < z {
        let k = min_event(c);
        if c.contains(k) {
            let stepped = sweep_step(fm, actives, k.3);
            if rings_complete(stepped) {
                sweep_to(fm, c.remove(k), stepped, z)
            } else {
                None
            }
        } else {
            Some((c, actives))
        }
    } else {
        Some((c, actives))
    }
}

#[via_fn]
proof fn sweep_to_decreases(
    fm: Seq<Seq<Seq<TowerRingElement>>>,
    c: Multiset<EventKey>,
    actives: Seq<Seq<TowerRingElement>>,
    z: int,
) {
    broadcast use vstd::multiset::group_multiset_axioms;

    if exists|k: EventKey| c.contains(k) && k.0 < z {
        let k = min_event(c);
        if c.contains(k) {
            assert(Multiset::singleton(k).subset_of(c)) by {
                assert forall|v: EventKey| #[trigger]
                    Multiset::singleton(k).count(v) <= c.count(v) by {
                    if v == k {
                        assert(c.count(k) >= 1);
                    } else {
                        assert(Multiset::singleton(k).count(v) == 0);
                    }
                }
            }
            assert(c.remove(k).len() == c.len() - 1);
        }
    }
}

/// What the sweep's state becomes when a tower is advanced to height `z`
/// from the given active rings: `None` when some ring is left open on the
/// way.
pub open spec fn sweep_result(
    t: TriangleTower,
    actives: Seq<Seq<TowerRingElement>>,
    z: int,
) -> Option<(Multiset<EventKey>, Seq<Seq<TowerRingElement>>)> {
    sweep_to(tower_frag_map(t), heap_contents(t.heap), actives, z)
}

/// Walks a tower's events from bottom to top, maintaining the set of rings
/// the sweep plane currently crosses.
pub struct TriangleTowerIterator {
    /// The tower being walked.
    pub tower: TriangleTower,
    /// The height the sweep has reached, in units.
    pub z_height: i64,
    /// The rings the sweep plane currently crosses.
    pub active_rings: Vec<TowerRing>,
}

/// The iterator's invariant: the tower is well-formed and every active ring
/// is complete and indexes real vertices.
pub open spec fn iter_inv(it: TriangleTowerIterator) -> bool {
    &&& tower_wf(it.tower)
    &&& rings_bounded(rings_view(it.active_rings@), it.tower.vertices@.len() as int)
    &&& rings_complete(rings_view(it.active_rings@))
}

impl TriangleTowerIterator {
    /// Starts a sweep at the height of the tower's lowest event.
    pub fn new(tower: TriangleTower) -> (r: TriangleTowerIterator)
        requires
            tower_wf(tower),
        ensures
            iter_inv(r),
            r.tower == tower,
            r.active_rings@.len() == 0,
    {
        let z_height = tower.get_height_of_next_vertex();
        TriangleTowerIterator { tower, z_height, active_rings: Vec::new() }
    }

    /// True when the sweep has passed every event.
    pub fn is_finished(&self) -> (r: bool)
        ensures
            r == (heap_contents(self.tower.heap) == Multiset::<EventKey>::empty()),
    {
        crate::heap::heap_is_empty(&self.tower.heap)
    }

    /// Advances the sweep plane to height `z`: every vertex strictly below
    /// `z` is passed, its vanishing edges are cut out of the active rings,
    /// its fragments are added, and the rings are rejoined, exactly as
    /// `sweep_to` states over `split_spec` and `join_all`.  A ring left
    /// open means the mesh is non-manifold at this height; the sweep then
    /// stops with a `TowerGeneration` error and no active rings.
    pub fn advance_to_height(&mut self, z: i64) -> (res: Result<(), SlicerErrors>)
        requires
            iter_inv(*old(self)),
        ensures
            iter_inv(*final(self)),
            final(self).tower.vertices == old(self).tower.vertices,
            final(self).tower.tower_vertices == old(self).tower.tower_vertices,
            res is Ok <==> sweep_result(
                old(self).tower,
                rings_view(old(self).active_rings@),
                z as int,
            ) is Some,
            res is Ok ==> Some(
                (
                    heap_contents(final(self).tower.heap),
                    rings_view(final(self).active_rings@),
                ),
            ) == sweep_result(old(self).tower, rings_view(old(self).active_rings@), z as int),
            res is Ok ==> final(self).z_height == z,
            res is Ok ==> forall|k: EventKey|
                #[trigger] heap_contents(final(self).tower.heap).contains(k) ==> k.0 >= z,
            res is Ok ==> forall|k: EventKey|
                #[trigger] heap_contents(final(self).tower.heap).count(k) as int == (if k.0 >= z {
                    heap_contents(old(self).tower.heap).count(k) as int
                } else {
                    0int
                }),
            forall|k: EventKey|
                #[trigger] heap_contents(final(self).tower.heap).count(k) <= heap_contents(
                    old(self).tower.heap,
                ).count(k),
            (forall|k: EventKey|
                #[trigger] heap_contents(old(self).tower.heap).contains(k) ==> k.0 >= z) ==> res
                is Ok && final(self).tower == old(self).tower && final(self).active_rings
                == old(self).active_rings,
            res is Err ==> res == Err::<(), SlicerErrors>(SlicerErrors::TowerGeneration),
    {
        let ghost n = self.tower.vertices@.len() as int;
        let mut done: bool = false;
        while !done
            invariant
                iter_inv(*self),
                n == self.tower.vertices@.len() as int,
                self.tower.vertices == old(self).tower.vertices,
                self.tower.tower_vertices == old(self).tower.tower_vertices,
                sweep_to(
                    tower_frag_map(old(self).tower),
                    heap_contents(self.tower.heap),
                    rings_view(self.active_rings@),
                    z as int,
                ) == sweep_result(old(self).tower, rings_view(old(self).active_rings@), z as int),
                forall|k: EventKey|
                    #[trigger] heap_contents(self.tower.heap).count(k) <= heap_contents(
                        old(self).tower.heap,
                    ).count(k),
                forall|k: EventKey|
                    k.0 >= z ==> #[trigger] heap_contents(self.tower.heap).count(k)
                        == heap_contents(old(self).tower.heap).count(k),
                (forall|k: EventKey|
                    #[trigger] heap_contents(old(self).tower.heap).contains(k) ==> k.0 >= z)
                    ==> self.tower == old(self).tower && self.active_rings
                    == old(self).active_rings,
                done ==> forall|k: EventKey|
                    #[trigger] heap_contents(self.tower.heap).contains(k) ==> k.0 >= z,
            decreases heap_contents(self.tower.heap).len(), (if done { 0int } else { 1int }),
        {
            let next = heap_peek(&self.tower.heap);
            let should_pop: bool = match next {
                Some(k) => k.0 < z,
                None => false,
            };
            if should_pop {
                let ghost pre_heap = heap_contents(self.tower.heap);
                match heap_pop(&mut self.tower.heap) {
                    None => {
                        proof {
                            assert(false);
                        }
                        done = true;
                    },
                    Some(k) => {
                        proof {
                            assert(pre_heap.contains(k));
                            assert(0 <= k.3 < n);
                            assert(k.0 < z) by {
                                match next {
                                    Some(k0) => {
                                        assert(crate::heap::key_le(k, k0));
                                    },
                                    None => {},
                                }
                            }
                            assert forall|kk: EventKey| #[trigger]
                                heap_contents(self.tower.heap).count(kk) <= pre_heap.count(
                                kk,
                            ) by {
                                assert(heap_contents(self.tower.heap).count(kk)
                                    == pre_heap.remove(k).count(kk));
                            }
                            assert forall|x: EventKey| #[trigger]
                                heap_contents(self.tower.heap).contains(x) implies
                                pre_heap.contains(x) by {
                                assert(heap_contents(self.tower.heap).count(x) == pre_heap.remove(
                                    k,
                                ).count(x));
                            }
                            assert(tower_wf(self.tower));
                        }
                        let idx = k.3;
                        let ghost pre_tower = self.tower;
                        let ghost fm = tower_frag_map(old(self).tower);
                        let ghost pre_actives = rings_view(self.active_rings@);
                        proof {
                            assert(self.tower.tower_vertices == old(self).tower.tower_vertices);
                            assert(heap_contents(pre_tower.heap) == pre_heap.remove(k));
                            assert(sweep_to(fm, pre_heap, pre_actives, z as int) == sweep_result(
                                old(self).tower,
                                rings_view(old(self).active_rings@),
                                z as int,
                            ));
                            assert(fm[idx as int] == rings_view(
                                self.tower.tower_vertices@[idx as int].next_ring_fragments@,
                            ));
                        }
                        let mut new_active: Vec<TowerRing> = Vec::new();
                        proof {
                            assert(rings_view(new_active@) =~= Seq::<Seq<TowerRingElement>>::empty());
                            assert(rings_view(new_active@) + splits_flat(pre_actives, idx)
                                =~= splits_flat(pre_actives, idx));
                        }
                        while self.active_rings.len() > 0
                            invariant
                                self.tower == pre_tower,
                                tower_wf(self.tower),
                                idx < n,
                                n == self.tower.vertices@.len() as int,
                                rings_bounded(rings_view(self.active_rings@), n),
                                rings_bounded(rings_view(new_active@), n),
                                rings_view(new_active@) + splits_flat(
                                    rings_view(self.active_rings@),
                                    idx,
                                ) == splits_flat(pre_actives, idx),
                            decreases self.active_rings@.len(),
                        {
                            let ghost pre_active = rings_view(self.active_rings@);
                            let ring = self.active_rings.remove(0);
                            proof {
                                assert(ring@ == pre_active[0]);
                                assert(ring_bounded(ring@, n));
                                assert forall|q: int|
                                    0 <= q < self.active_rings@.len() implies ring_bounded(
                                    #[trigger] rings_view(self.active_rings@)[q],
                                    n,
                                ) by {
                                    assert(rings_view(self.active_rings@)[q] == pre_active[q + 1]);
                                }
                                assert forall|q: int|
                                    0 <= q < self.active_rings@.len() implies #[trigger] rings_view(
                                    self.active_rings@,
                                )[q] == pre_active.skip(1)[q] by {
                                    assert(rings_view(self.active_rings@)[q] == pre_active[q + 1]);
                                }
                                assert(rings_view(self.active_rings@) =~= pre_active.skip(1));
                                lemma_split_bounded(ring@, idx, n);
                            }
                            let ghost pre_new = rings_view(new_active@);
                            let mut frags = ring.split_on_edge(idx);
                            let ghost frag_views = rings_view(frags@);
                            new_active.append(&mut frags);
                            proof {
                                assert forall|q: int|
                                    0 <= q < new_active@.len() implies ring_bounded(
                                    #[trigger] rings_view(new_active@)[q],
                                    n,
                                ) by {
                                    if q < pre_new.len() {
                                        assert(rings_view(new_active@)[q] == pre_new[q]);
                                    } else {
                                        assert(rings_view(new_active@)[q] == frag_views[q
                                            - pre_new.len()]);
                                    }
                                }
                                assert forall|q: int|
                                    0 <= q < new_active@.len() implies #[trigger] rings_view(
                                    new_active@,
                                )[q] == (pre_new + frag_views)[q] by {
                                    if q < pre_new.len() {
                                        assert(rings_view(new_active@)[q] == pre_new[q]);
                                    } else {
                                        assert(rings_view(new_active@)[q] == frag_views[q
                                            - pre_new.len()]);
                                    }
                                }
                                assert(rings_view(new_active@) =~= pre_new + frag_views);
                                assert(splits_flat(pre_active, idx) == split_spec(
                                    pre_active[0],
                                    idx,
                                ) + splits_flat(pre_active.skip(1), idx));
                                assert(frag_views == split_spec(pre_active[0], idx));
                                assert((pre_new + frag_views) + splits_flat(
                                    pre_active.skip(1),
                                    idx,
                                ) =~= pre_new + (frag_views + splits_flat(
                                    pre_active.skip(1),
                                    idx,
                                )));
                            }
                        }
                        let ghost base = rings_view(new_active@);
                        let ghost fmv = rings_view(
                            self.tower.tower_vertices@[idx as int].next_ring_fragments@,
                        );
                        proof {
                            assert(splits_flat(rings_view(self.active_rings@), idx) =~= Seq::<
                                Seq<TowerRingElement>,
                            >::empty());
                            assert(base + splits_flat(rings_view(self.active_rings@), idx)
                                =~= base);
                            assert(base == splits_flat(pre_actives, idx));
                            assert(fmv == fm[idx as int]);
                            assert(fmv.take(0) =~= Seq::<Seq<TowerRingElement>>::empty());
                            assert(base + fmv.take(0) =~= base);
                        }
                        let frag_count = self.tower.tower_vertices[idx].next_ring_fragments.len();
                        let mut q: usize = 0;
                        while q < frag_count
                            invariant
                                self.tower == pre_tower,
                                self.active_rings@.len() == 0,
                                n == self.tower.vertices@.len() as int,
                                tower_wf(self.tower),
                                idx < n,
                                q <= frag_count,
                                frag_count == self.tower.tower_vertices@[idx as int].next_ring_fragments@.len(),
                                fmv == rings_view(
                                    self.tower.tower_vertices@[idx as int].next_ring_fragments@,
                                ),
                                rings_view(new_active@) == base + fmv.take(q as int),
                                rings_bounded(rings_view(new_active@), n),
                            decreases frag_count - q,
                        {
                            let ghost pre_new = rings_view(new_active@);
                            let copied = copy_ring(
                                &self.tower.tower_vertices[idx].next_ring_fragments[q],
                            );
                            proof {
                                assert(ring_bounded(
                                    rings_view(
                                        self.tower.tower_vertices@[idx as int].next_ring_fragments@,
                                    )[q as int],
                                    n,
                                ));
                                lemma_rings_view_push(new_active@, copied);
                            }
                            new_active.push(copied);
                            proof {
                                assert(copied@ == fmv[q as int]);
                                assert((base + fmv.take(q as int)).push(fmv[q as int]) =~= base
                                    + fmv.take(q as int + 1));
                            }
                            q = q + 1;
                        }
                        proof {
                            assert(fmv.take(frag_count as int) =~= fmv);
                            assert(rings_view(new_active@) == base + fmv);
                            lemma_join_all_bounded(rings_view(new_active@), n);
                        }
                        join_fragments(&mut new_active);
                        proof {
                            assert(rings_view(new_active@) == join_all(base + fmv));
                            assert(base + fmv == splits_flat(pre_actives, idx) + fm[idx as int]);
                            assert(rings_view(new_active@) == sweep_step(fm, pre_actives, idx));
                        }
                        let mut all_complete: bool = true;
                        let mut ci: usize = 0;
                        while ci < new_active.len()
                            invariant
                                self.tower == pre_tower,
                                self.active_rings@.len() == 0,
                                n == self.tower.vertices@.len() as int,
                                tower_wf(self.tower),
                                rings_bounded(rings_view(new_active@), n),
                                ci <= new_active@.len(),
                                all_complete == (forall|w: int|
                                    0 <= w < ci ==> ring_complete(
                                        #[trigger] rings_view(new_active@)[w],
                                    )),
                            decreases new_active@.len() - ci,
                        {
                            let complete_here = new_active[ci].is_complete_ring();
                            proof {
                                assert(rings_view(new_active@)[ci as int] == new_active@[ci as int]@);
                            }
                            if !complete_here {
                                all_complete = false;
                            }
                            ci = ci + 1;
                        }
                        proof {
                            assert(all_complete == rings_complete(rings_view(new_active@)));
                            assert(rings_view(new_active@) == sweep_step(fm, pre_actives, idx));
                            lemma_min_event_is(pre_heap, k);
                            assert(exists|kk: EventKey| pre_heap.contains(kk) && kk.0 < z);
                        }
                        if !all_complete {
                            proof {
                                assert(!rings_complete(sweep_step(fm, pre_actives, k.3)));
                                assert(sweep_to(fm, pre_heap, pre_actives, z as int) is None);
                                assert(sweep_result(
                                    old(self).tower,
                                    rings_view(old(self).active_rings@),
                                    z as int,
                                ) is None);
                            }
                            self.active_rings = Vec::new();
                            proof {
                                assert(rings_view(self.active_rings@) =~= Seq::<
                                    Seq<TowerRingElement>,
                                >::empty());
                            }
                            return Err(SlicerErrors::TowerGeneration);
                        }
                        proof {
                            assert(rings_complete(sweep_step(fm, pre_actives, k.3)));
                            assert(sweep_to(fm, pre_heap, pre_actives, z as int) == sweep_to(
                                fm,
                                pre_heap.remove(k),
                                sweep_step(fm, pre_actives, k.3),
                                z as int,
                            ));
                        }
                        let ghost stepped_view = rings_view(new_active@);
                        self.active_rings = new_active;
                        proof {
                            assert(rings_view(self.active_rings@) == stepped_view);
                            assert(heap_contents(self.tower.heap) == pre_heap.remove(k));
                        }
                    },
                }
            } else {
                proof {
                    match next {
                        Some(k0) => {
                            assert forall|k: EventKey| #[trigger]
                                heap_contents(self.tower.heap).contains(k) implies k.0 >= z by {
                                assert(crate::heap::key_le(k0, k));
                            }
                        },
                        None => {},
                    }
                }
                done = true;
            }
        }
        self.z_height = z;
        proof {
            assert(sweep_to(
                tower_frag_map(old(self).tower),
                heap_contents(self.tower.heap),
                rings_view(self.active_rings@),
                z as int,
            ) == Some((heap_contents(self.tower.heap), rings_view(self.active_rings@)))) by {
                if exists|kk: EventKey|
                    heap_contents(self.tower.heap).contains(kk) && kk.0 < z as int {
                    let kk = choose|kk: EventKey|
                        heap_contents(self.tower.heap).contains(kk) && kk.0 < z as int;
                    assert(kk.0 >= z);
                }
            }
            assert forall|kk: EventKey| #[trigger]
                heap_contents(self.tower.heap).count(kk) as int == (if kk.0 >= z {
                heap_contents(old(self).tower.heap).count(kk) as int
            } else {
                0int
            }) by {
                if kk.0 < z {
                    if heap_contents(self.tower.heap).count(kk) > 0 {
                        assert(heap_contents(self.tower.heap).contains(kk));
                    }
                }
            }
        }
        Ok(())
    }

    /// The closed point loops where the sweep plane crosses the active
    /// rings, exactly as `ring_points` states: one loop per active ring,
    /// each point the plane intersection of an edge whose endpoints span
    /// the plane, in ring order, and each non-empty loop closed by
    /// repeating its first point.
    pub fn get_points(&self) -> (r: Vec<Vec<Point2>>)
        requires
            iter_inv(*self),
        ensures
            r@.len() == self.active_rings@.len(),
            forall|li: int|
                0 <= li < r@.len() ==> (#[trigger] r@[li])@ == close_loop(
                    ring_points(
                        self.active_rings@[li]@,
                        self.z_height as int,
                        self.tower.vertices@,
                    ),
                ),
    {
        let ghost n = self.tower.vertices@.len() as int;
        let mut result: Vec<Vec<Point2>> = Vec::new();
        let mut li: usize = 0;
        while li < self.active_rings.len()
            invariant
                li <= self.active_rings@.len(),
                iter_inv(*self),
                n == self.tower.vertices@.len() as int,
                result@.len() == li,
                forall|w: int|
                    0 <= w < li ==> (#[trigger] result@[w])@ == close_loop(
                        ring_points(
                            self.active_rings@[w]@,
                            self.z_height as int,
                            self.tower.vertices@,
                        ),
                    ),
            decreases self.active_rings@.len() - li,
        {
            let ring = &self.active_rings[li];
            let mut points: Vec<Point2> = Vec::new();
            let mut ei: usize = 0;
            proof {
                assert(ring@.skip(0) =~= ring@);
            }
            while ei < ring.elements.len()
                invariant
                    ei <= ring@.len(),
                    iter_inv(*self),
                    n == self.tower.vertices@.len() as int,
                    li < self.active_rings@.len(),
                    ring == self.active_rings@[li as int],
                    ring_points(ring@, self.z_height as int, self.tower.vertices@)
                        == ring_points_walk(
                        ring@.skip(ei as int),
                        self.z_height as int,
                        self.tower.vertices@,
                        points@,
                    ),
                decreases ring@.len() - ei,
            {
                proof {
                    assert(ring_bounded(rings_view(self.active_rings@)[li as int], n));
                    assert(el_bounded(ring@[ei as int], n));
                    assert(ring@.skip(ei as int)[0] == ring@[ei as int]);
                    assert(ring@.skip(ei as int).skip(1) =~= ring@.skip(ei + 1));
                }
                match ring.elements[ei] {
                    TowerRingElement::Edge { start_index, end_index } => {
                        let a = self.tower.vertices[start_index];
                        let b = self.tower.vertices[end_index];
                        if a.z < b.z && a.z <= self.z_height && self.z_height <= b.z {
                            points.push(line_z_intersection(self.z_height, &a, &b));
                        }
                    },
                    TowerRingElement::Face { .. } => {},
                }
                ei = ei + 1;
            }
            proof {
                assert(ring@.skip(ring@.len() as int) =~= Seq::<TowerRingElement>::empty());
            }
            if points.len() > 0 {
                let first = points[0];
                let last = points[points.len() - 1];
                if !(first == last) {
                    points.push(first);
                } else if points.len() == 1 {
                    points.push(first);
                }
            }
            result.push(points);
            li = li + 1;
        }
        result
    }
}

/// Builds one tower per mesh.
pub fn create_towers(models: &Vec<(Vec<Vertex>, Vec<IndexedTriangle>)>) -> (r: Result<
    Vec<TriangleTower>,
    SlicerErrors,
>)
    requires
        forall|m: int|
            0 <= m < models@.len() ==> triangles_in_range(
                (#[trigger] models@[m]).1@,
                models@[m].0@.len() as int,
            ) && (forall|i: int|
                0 <= i < models@[m].0@.len() ==> vert_bounded(#[trigger] models@[m].0@[i])),
    ensures
        (match r {
            Ok(ts) => {
                &&& ts@.len() == models@.len()
                &&& forall|m: int|
                    0 <= m < models@.len() ==> tower_wf(#[trigger] ts@[m]) && ts@[m].vertices@
                        == models@[m].0@
                &&& forall|m: int, v: int|
                    0 <= m < models@.len() && 0 <= v < models@[m].0@.len() ==> rings_view(
                        (#[trigger] ts@[m].tower_vertices@[v]).next_ring_fragments@,
                    ) == join_all(vertex_fragments(models@[m].1@, models@[m].0@, v))
                &&& forall|m: int|
                    0 <= m < models@.len() ==> heap_contents((#[trigger] ts@[m]).heap)
                        == Seq::new(
                        models@[m].0@.len(),
                        |i: int| vertex_key(models@[m].0@[i], i as usize),
                    ).to_multiset()
            },
            Err(_) => false,
        }),
{
    let mut towers: Vec<TriangleTower> = Vec::new();
    let mut m: usize = 0;
    while m < models.len()
        invariant
            m <= models@.len(),
            towers@.len() == m,
            forall|q: int|
                0 <= q < models@.len() ==> triangles_in_range(
                    (#[trigger] models@[q]).1@,
                    models@[q].0@.len() as int,
                ) && (forall|i: int|
                    0 <= i < models@[q].0@.len() ==> vert_bounded(#[trigger] models@[q].0@[i])),
            forall|q: int|
                0 <= q < m ==> tower_wf(#[trigger] towers@[q]) && towers@[q].vertices@
                    == models@[q].0@,
            forall|q: int, v: int|
                0 <= q < m && 0 <= v < models@[q].0@.len() ==> rings_view(
                    (#[trigger] towers@[q].tower_vertices@[v]).next_ring_fragments@,
                ) == join_all(vertex_fragments(models@[q].1@, models@[q].0@, v)),
            forall|q: int|
                0 <= q < m ==> heap_contents((#[trigger] towers@[q]).heap) == Seq::new(
                    models@[q].0@.len(),
                    |i: int| vertex_key(models@[q].0@[i], i as usize),
                ).to_multiset(),
        decreases models@.len() - m,
    {
        let pair = &models[m];
        let mut verts: Vec<Vertex> = Vec::new();
        let mut vi: usize = 0;
        while vi < pair.0.len()
            invariant
                vi <= pair.0@.len(),
                verts@ == pair.0@.take(vi as int),
            decreases pair.0@.len() - vi,
        {
            verts.push(pair.0[vi]);
            proof {
                assert(verts@ =~= pair.0@.take(vi + 1));
            }
            vi = vi + 1;
        }
        proof {
            assert(pair.0@.take(pair.0@.len() as int) =~= pair.0@);
        }
        match TriangleTower::from_triangles_and_vertices(&pair.1, verts) {
            Ok(tower) => {
                towers.push(tower);
            },
            Err(e) => {
                return Err(e);
            },
        }
        m = m + 1;
    }
    Ok(towers)
}

} // verus!
