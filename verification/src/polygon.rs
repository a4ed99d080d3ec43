use vstd::prelude::*;
use crate::edit::Edit;
use crate::error::SMeshError;
use crate::face_plan::{
    face_sides, fresh_sides, link_corner, link_corners, next_index, FacePlan, LinkState,
};
use crate::graph::Graph;
use crate::mesh_elements::{FaceId, Halfedge, HalfedgeId, Vertex, VertexId};

verus! {

/// The vertices are live and isolated, at least three, and no two of them
/// are the same: a polygon with no connectivity yet.
pub open spec fn lone_polygon(g: Graph, vs: Seq<VertexId>) -> bool {
    &&& vs.len() >= 3
    &&& vs.no_duplicates()
    &&& forall|i: int|
        0 <= i < vs.len() ==> g.vertices.contains_key(#[trigger] vs[i])
            && g.vertices[vs[i]].halfedge is None
}

/// `n` sides none of which is there yet.
pub open spec fn no_sides(n: nat) -> Seq<Option<HalfedgeId>> {
    Seq::new(n, |i: int| None)
}

/// The place before `i` on a circle of `n` places.
pub open spec fn prev_index(i: int, n: int) -> int {
    if i == 0 {
        n - 1
    } else {
        i - 1
    }
}

impl Graph {
    /// Around a polygon without connectivity every side is missing.
    pub proof fn lemma_lone_sides(self, vs: Seq<VertexId>, i: int, acc: Seq<Option<HalfedgeId>>)
        requires
            lone_polygon(self, vs),
            0 <= i <= vs.len(),
            acc == no_sides(i as nat),
        ensures
            self.scan_sides(vs, i, acc) == Ok::<Seq<Option<HalfedgeId>>, SMeshError>(
                no_sides(vs.len()),
            ),
        decreases vs.len() - i,
    {
        if i < vs.len() {
            let v0 = vs[i];
            let v1 = vs[next_index(i, vs.len() as int)];
            assert(self.vertex_halfedge(v0) is Err);
            assert(self.vertex_halfedges(v0).len() == 0);
            assert(self.halfedge_to(v0, v1) is Err);
            assert(self.face_side(v0, v1) == Ok::<Option<HalfedgeId>, SMeshError>(None));
            assert(acc.push(None) =~= no_sides((i + 1) as nat));
            self.lemma_lone_sides(vs, i + 1, acc.push(None));
        } else {
            assert(acc =~= no_sides(vs.len()));
        }
    }

    /// Where every side is missing no patch has to be moved.
    pub proof fn lemma_lone_relinks(self, n: nat, i: int)
        requires
            0 <= i <= n,
        ensures
            self.scan_relinks(no_sides(n), i, Seq::empty()) == Ok::<
                Seq<(HalfedgeId, HalfedgeId)>,
                SMeshError,
            >(Seq::empty()),
        decreases n - i,
    {
        if i < n {
            assert(self.relink_corner(no_sides(n), i) == Ok::<
                Seq<(HalfedgeId, HalfedgeId)>,
                SMeshError,
            >(Seq::empty()));
            assert(Seq::<(HalfedgeId, HalfedgeId)>::empty() + Seq::<
                (HalfedgeId, HalfedgeId),
            >::empty() =~= Seq::<(HalfedgeId, HalfedgeId)>::empty());
            self.lemma_lone_relinks(n, i + 1);
        }
    }

    /// The plan for a face over a polygon without connectivity: every side
    /// is to be made, and nothing is to be moved.
    pub proof fn lemma_lone_plan(self, vs: Seq<VertexId>)
        requires
            lone_polygon(self, vs),
        ensures
            self.face_plan(vs) == Ok::<FacePlan, SMeshError>(
                FacePlan { existing: no_sides(vs.len()), relinks: Seq::empty() },
            ),
    {
        assert(Seq::<Option<HalfedgeId>>::empty() =~= no_sides(0));
        self.lemma_lone_sides(vs, 0, Seq::empty());
        self.lemma_lone_relinks(vs.len(), 0);
    }
}

/// The record of the inner halfedge of the `i`-th side as it is made.
pub open spec fn bare_inner(vs: Seq<VertexId>, keys: Seq<(HalfedgeId, HalfedgeId)>, i: int) -> Halfedge {
    Halfedge {
        vertex: vs[next_index(i, vs.len() as int)],
        face: None,
        opposite: Some(keys[i].1),
        prev: None,
        next: None,
    }
}

/// The record of the outer halfedge of the `i`-th side as it is made.
pub open spec fn bare_outer(vs: Seq<VertexId>, keys: Seq<(HalfedgeId, HalfedgeId)>, i: int) -> Halfedge {
    Halfedge { vertex: vs[i], face: None, opposite: Some(keys[i].0), prev: None, next: None }
}

/// The graph `g1` is `g` with the sides from the `i`-th on made, each as a
/// pair of bare halfedges, and nothing else changed.
pub open spec fn sides_made(
    g: Graph,
    g1: Graph,
    vs: Seq<VertexId>,
    keys: Seq<(HalfedgeId, HalfedgeId)>,
    i: int,
) -> bool {
    &&& g1.vertices == g.vertices
    &&& g1.faces == g.faces
    &&& g1.n_vertices == g.n_vertices
    &&& g1.n_faces == g.n_faces
    &&& g1.n_halfedges == g.n_halfedges + 2 * (vs.len() - i)
    &&& forall|k: int|
        i <= k < vs.len() ==> g1.halfedges.contains_key((#[trigger] keys[k]).0)
            && g1.halfedges[keys[k].0] == bare_inner(vs, keys, k) && g1.halfedges.contains_key(
            keys[k].1,
        ) && g1.halfedges[keys[k].1] == bare_outer(vs, keys, k)
    &&& forall|h: HalfedgeId|
        g.halfedges.contains_key(h) ==> #[trigger] g1.halfedges.contains_key(h)
            && g1.halfedges[h] == g.halfedges[h]
    &&& forall|h: HalfedgeId| #[trigger]
        g1.halfedges.contains_key(h) ==> g.halfedges.contains_key(h) || exists|k: int|
            i <= k < vs.len() && (h == (#[trigger] keys[k]).0 || h == keys[k].1)
}

/// Making every side of a polygon from the `i`-th on.
pub proof fn lemma_create_all_sides(
    e: Edit,
    vs: Seq<VertexId>,
    keys: Seq<(HalfedgeId, HalfedgeId)>,
    i: int,
)
    requires
        e.err is None,
        0 <= i <= vs.len(),
        keys.len() == vs.len(),
        forall|k: int|
            i <= k < vs.len() ==> !e.g.halfedges.contains_key((#[trigger] keys[k]).0)
                && !e.g.halfedges.contains_key(keys[k].1) && keys[k].0 != keys[k].1,
        forall|k: int, l: int|
            i <= k < l < vs.len() ==> (#[trigger] keys[k]).0 != (#[trigger] keys[l]).0 && keys[k].0
                != keys[l].1 && keys[k].1 != keys[l].0 && keys[k].1 != keys[l].1,
    ensures
        e.create_sides(vs, no_sides(vs.len()), keys, i).err is None,
        sides_made(e.g, e.create_sides(vs, no_sides(vs.len()), keys, i).g, vs, keys, i),
    decreases vs.len() - i,
{
    if i < vs.len() {
        let step = e.add_edge(vs[i], vs[next_index(i, vs.len() as int)], keys[i].0, keys[i].1);
        assert forall|k: int| i + 1 <= k < vs.len() implies !step.g.halfedges.contains_key(
            (#[trigger] keys[k]).0,
        ) && !step.g.halfedges.contains_key(keys[k].1) && keys[k].0 != keys[k].1 by {
            assert(keys[i].0 != keys[k].0);
        }
        lemma_create_all_sides(step, vs, keys, i + 1);
        let g1 = e.create_sides(vs, no_sides(vs.len()), keys, i).g;
        assert(g1 == step.create_sides(vs, no_sides(vs.len()), keys, i + 1).g);
        assert forall|k: int| i <= k < vs.len() implies g1.halfedges.contains_key(
            (#[trigger] keys[k]).0,
        ) && g1.halfedges[keys[k].0] == bare_inner(vs, keys, k) && g1.halfedges.contains_key(
            keys[k].1,
        ) && g1.halfedges[keys[k].1] == bare_outer(vs, keys, k) by {
            if k == i {
                assert(step.g.halfedges.contains_key(keys[i].0));
                assert(step.g.halfedges.contains_key(keys[i].1));
            }
        }
        assert forall|h: HalfedgeId| #[trigger] g1.halfedges.contains_key(h) implies e.g.halfedges.contains_key(
            h,
        ) || exists|k: int| i <= k < vs.len() && (h == (#[trigger] keys[k]).0 || h == keys[k].1) by {
            if !step.g.halfedges.contains_key(h) {
                let k = choose|k: int|
                    i + 1 <= k < vs.len() && (h == (#[trigger] keys[k]).0 || h == keys[k].1);
                assert(i <= k < vs.len() && (h == keys[k].0 || h == keys[k].1));
            } else if !e.g.halfedges.contains_key(h) {
                assert(h == keys[i].0 || h == keys[i].1);
            }
        }
    }
}

/// The links that the corners before the `i`-th of a lone polygon note: for
/// each corner, that the outer halfedge of the side before it follows the
/// outer halfedge of the side after it, and that the inner halfedge of the
/// side after it follows the inner halfedge of the side before it.
pub open spec fn corner_links(n: int, keys: Seq<(HalfedgeId, HalfedgeId)>, i: int) -> Seq<
    (HalfedgeId, HalfedgeId),
> {
    Seq::new(
        (2 * i) as nat,
        |j: int|
            if j % 2 == 0 {
                (keys[next_index(j / 2, n)].1, keys[j / 2].1)
            } else {
                (keys[j / 2].0, keys[next_index(j / 2, n)].0)
            },
    )
}

/// Whether the corner at the place `j` of the polygon is linked once the
/// corners after the sides before the `i`-th are.
pub open spec fn corner_done(j: int, i: int, n: int) -> bool {
    (1 <= j <= i) || (j == 0 && i == n)
}

/// The state `st` is what linking the corners after the sides before the
/// `i`-th makes of the graph `g1`, in which every side of the polygon is a
/// pair of bare halfedges.
pub open spec fn corners_linked(
    g1: Graph,
    st: LinkState,
    vs: Seq<VertexId>,
    keys: Seq<(HalfedgeId, HalfedgeId)>,
    f: FaceId,
    i: int,
) -> bool {
    let g2 = st.edit.g;
    let n = vs.len() as int;
    &&& st.edit.err is None
    &&& st.adjust == Seq::<VertexId>::empty()
    &&& st.cache == corner_links(n, keys, i)
    &&& g2.faces == g1.faces
    &&& g2.n_vertices == g1.n_vertices
    &&& g2.n_halfedges == g1.n_halfedges
    &&& g2.n_faces == g1.n_faces
    &&& g2.halfedges.dom() == g1.halfedges.dom()
    &&& g2.vertices.dom() == g1.vertices.dom()
    &&& forall|k: int|
        0 <= k < n ==> g2.halfedges[(#[trigger] keys[k]).0] == (Halfedge {
            face: if k < i {
                Some(f)
            } else {
                None
            },
            ..bare_inner(vs, keys, k)
        }) && g2.halfedges[keys[k].1] == bare_outer(vs, keys, k)
    &&& forall|h: HalfedgeId|
        g1.halfedges.contains_key(h) && !is_side(keys, h) ==> #[trigger] g2.halfedges[h]
            == g1.halfedges[h]
    &&& forall|j: int|
        0 <= j < n ==> (#[trigger] g2.vertices[vs[j]]).halfedge == (if corner_done(j, i, n) {
            Some(keys[prev_index(j, n)].1)
        } else {
            None
        })
    &&& forall|v: VertexId|
        g1.vertices.contains_key(v) && !vs.contains(v) ==> #[trigger] g2.vertices[v]
            == g1.vertices[v]
}

/// The keys of the sides are live in `g1` as bare halfedges, no two of them
/// are the same, and the corners are live, isolated and different.
pub open spec fn bare_polygon(
    g1: Graph,
    vs: Seq<VertexId>,
    keys: Seq<(HalfedgeId, HalfedgeId)>,
) -> bool {
    &&& vs.len() >= 3
    &&& keys.len() == vs.len()
    &&& vs.no_duplicates()
    &&& forall|j: int|
        0 <= j < vs.len() ==> g1.vertices.contains_key(#[trigger] vs[j])
            && g1.vertices[vs[j]].halfedge is None
    &&& forall|k: int|
        0 <= k < vs.len() ==> g1.halfedges.contains_key((#[trigger] keys[k]).0)
            && g1.halfedges[keys[k].0] == bare_inner(vs, keys, k) && g1.halfedges.contains_key(
            keys[k].1,
        ) && g1.halfedges[keys[k].1] == bare_outer(vs, keys, k) && keys[k].0 != keys[k].1
    &&& forall|k: int, l: int|
        0 <= k < l < vs.len() ==> (#[trigger] keys[k]).0 != (#[trigger] keys[l]).0 && keys[k].0
            != keys[l].1 && keys[k].1 != keys[l].0 && keys[k].1 != keys[l].1
}

/// Linking one more corner of a lone polygon.
pub proof fn lemma_link_lone_corner(
    g1: Graph,
    st: LinkState,
    vs: Seq<VertexId>,
    keys: Seq<(HalfedgeId, HalfedgeId)>,
    f: FaceId,
    i: int,
)
    requires
        bare_polygon(g1, vs, keys),
        0 <= i < vs.len(),
        corners_linked(g1, st, vs, keys, f, i),
    ensures
        corners_linked(
            g1,
            link_corner(st, vs, face_sides(no_sides(vs.len()), keys), f, i),
            vs,
            keys,
            f,
            i + 1,
        ),
{
    let n = vs.len() as int;
    let sides = face_sides(no_sides(vs.len()), keys);
    let ii = next_index(i, n);
    let v = vs[ii];
    let g = st.edit.g;
    assert(sides[i] == (keys[i].0, true));
    assert(sides[ii] == (keys[ii].0, true));
    assert(g.halfedges.contains_key(keys[i].0)) by {
        assert(g1.halfedges.contains_key(keys[i].0));
    }
    assert(g.halfedges.contains_key(keys[ii].0)) by {
        assert(g1.halfedges.contains_key(keys[ii].0));
    }
    assert(g.he_opposite(keys[ii].0) == Ok::<HalfedgeId, SMeshError>(keys[ii].1));
    assert(g.he_opposite(keys[i].0) == Ok::<HalfedgeId, SMeshError>(keys[i].1));
    assert(!corner_done(ii, i, n));
    assert(g.vertices.contains_key(v)) by {
        assert(g1.vertices.contains_key(vs[ii]));
    }
    assert(g.vertices[vs[ii]].halfedge is None);
    assert(g.vertex_halfedge(v) is Err);
    let after = link_corner(st, vs, sides, f, i);
    let st1 = st.set_vertex_halfedge(v, Some(keys[i].1)).link(keys[ii].1, keys[i].1).link(
        keys[i].0,
        keys[ii].0,
    );
    assert(after == st1.set_face(keys[i].0, Some(f)));
    let g2 = after.edit.g;
    assert(after.cache =~= corner_links(n, keys, i + 1)) by {
        let c = corner_links(n, keys, i + 1);
        assert(after.cache.len() == c.len());
        assert forall|j: int| 0 <= j < c.len() implies after.cache[j] == c[j] by {
            if j < 2 * i {
                assert(after.cache[j] == corner_links(n, keys, i)[j]);
            }
        }
    }
    assert(g2.halfedges.dom() =~= g1.halfedges.dom());
    assert(g2.vertices.dom() =~= g1.vertices.dom());
    assert forall|k: int| 0 <= k < n implies g2.halfedges[(#[trigger] keys[k]).0] == (Halfedge {
        face: if k < i + 1 {
            Some(f)
        } else {
            None
        },
        ..bare_inner(vs, keys, k)
    }) && g2.halfedges[keys[k].1] == bare_outer(vs, keys, k) by {
        if k < i {
            assert(keys[k].0 != keys[i].0);
            assert(keys[k].1 != keys[i].0);
        } else if k > i {
            assert(keys[i].0 != keys[k].0);
            assert(keys[i].0 != keys[k].1);
        }
    }
    assert forall|j: int| 0 <= j < n implies (#[trigger] g2.vertices[vs[j]]).halfedge == (if corner_done(
        j,
        i + 1,
        n,
    ) {
        Some(keys[prev_index(j, n)].1)
    } else {
        None
    }) by {
        if j != ii {
            assert(vs[j] != vs[ii]);
            assert(g2.vertices[vs[j]] == g.vertices[vs[j]]);
        }
    }
    assert forall|v2: VertexId|
        g1.vertices.contains_key(v2) && !vs.contains(v2) implies #[trigger] g2.vertices[v2]
        == g1.vertices[v2] by {
        assert(vs.contains(vs[ii]));
        assert(v2 != v);
    }
}

/// Linking the corners of a lone polygon from the `i`-th on.
pub proof fn lemma_link_lone_corners(
    g1: Graph,
    st: LinkState,
    vs: Seq<VertexId>,
    keys: Seq<(HalfedgeId, HalfedgeId)>,
    f: FaceId,
    i: int,
)
    requires
        bare_polygon(g1, vs, keys),
        0 <= i <= vs.len(),
        corners_linked(g1, st, vs, keys, f, i),
    ensures
        corners_linked(
            g1,
            link_corners(st, vs, face_sides(no_sides(vs.len()), keys), f, i),
            vs,
            keys,
            f,
            vs.len() as int,
        ),
    decreases vs.len() - i,
{
    if i < vs.len() {
        lemma_link_lone_corner(g1, st, vs, keys, f, i);
        lemma_link_lone_corners(
            g1,
            link_corner(st, vs, face_sides(no_sides(vs.len()), keys), f, i),
            vs,
            keys,
            f,
            i + 1,
        );
    }
}

/// What making the noted links from the `k`-th on does where every halfedge
/// that they name is live, no two links start at the same halfedge, and no
/// two end at the same: every link is made, and nothing else is changed.
pub proof fn lemma_apply_links_pointwise(e: Edit, cache: Seq<(HalfedgeId, HalfedgeId)>, k: int)
    requires
        e.err is None,
        0 <= k <= cache.len(),
        forall|j: int|
            k <= j < cache.len() ==> e.g.halfedges.contains_key((#[trigger] cache[j]).0)
                && e.g.halfedges.contains_key(cache[j].1),
        forall|j: int, l: int|
            k <= j < l < cache.len() ==> (#[trigger] cache[j]).0 != (#[trigger] cache[l]).0
                && cache[j].1 != cache[l].1,
    ensures
        e.apply_links(cache, k).err is None,
        e.apply_links(cache, k).g.vertices == e.g.vertices,
        e.apply_links(cache, k).g.faces == e.g.faces,
        e.apply_links(cache, k).g.n_vertices == e.g.n_vertices,
        e.apply_links(cache, k).g.n_halfedges == e.g.n_halfedges,
        e.apply_links(cache, k).g.n_faces == e.g.n_faces,
        e.apply_links(cache, k).g.halfedges.dom() == e.g.halfedges.dom(),
        forall|h: HalfedgeId|
            e.g.halfedges.contains_key(h) ==> (#[trigger] e.apply_links(
                cache,
                k,
            ).g.halfedges[h]).vertex == e.g.halfedges[h].vertex && e.apply_links(
                cache,
                k,
            ).g.halfedges[h].face == e.g.halfedges[h].face && e.apply_links(
                cache,
                k,
            ).g.halfedges[h].opposite == e.g.halfedges[h].opposite,
        forall|j: int|
            k <= j < cache.len() ==> e.apply_links(cache, k).g.halfedges[(
            #[trigger] cache[j]).0].next == Some(cache[j].1) && e.apply_links(
                cache,
                k,
            ).g.halfedges[cache[j].1].prev == Some(cache[j].0),
        forall|h: HalfedgeId|
            e.g.halfedges.contains_key(h) && (forall|j: int|
                k <= j < cache.len() ==> (#[trigger] cache[j]).0 != h) ==> (#[trigger] e.apply_links(
                cache,
                k,
            ).g.halfedges[h]).next == e.g.halfedges[h].next,
        forall|h: HalfedgeId|
            e.g.halfedges.contains_key(h) && (forall|j: int|
                k <= j < cache.len() ==> (#[trigger] cache[j]).1 != h) ==> (#[trigger] e.apply_links(
                cache,
                k,
            ).g.halfedges[h]).prev == e.g.halfedges[h].prev,
    decreases cache.len() - k,
{
    if k < cache.len() {
        let a = cache[k].0;
        let b = cache[k].1;
        let linked = e.set_next(a, Some(b));
        assert(e.g.halfedges.contains_key(a) && e.g.halfedges.contains_key(b));
        assert(linked.err is None);
        assert(linked.g.halfedges.dom() =~= e.g.halfedges.dom());
        assert forall|j: int| k + 1 <= j < cache.len() implies linked.g.halfedges.contains_key(
            (#[trigger] cache[j]).0,
        ) && linked.g.halfedges.contains_key(cache[j].1) by {
            assert(e.g.halfedges.contains_key(cache[j].0));
        }
        lemma_apply_links_pointwise(linked, cache, k + 1);
        let r = e.apply_links(cache, k);
        assert(r == linked.apply_links(cache, k + 1));
        assert(linked.g.halfedges[a].next == Some(b));
        assert(linked.g.halfedges[b].prev == Some(a));
        assert forall|j: int| k <= j < cache.len() implies r.g.halfedges[(#[trigger] cache[j]).0].next
            == Some(cache[j].1) && r.g.halfedges[cache[j].1].prev == Some(cache[j].0) by {
            if j == k {
                assert forall|l: int| k + 1 <= l < cache.len() implies (#[trigger] cache[l]).0
                    != a by {
                    assert(cache[k].0 != cache[l].0);
                }
                assert forall|l: int| k + 1 <= l < cache.len() implies (#[trigger] cache[l]).1
                    != b by {
                    assert(cache[k].1 != cache[l].1);
                }
            }
        }
        assert forall|h: HalfedgeId|
            e.g.halfedges.contains_key(h) && (forall|j: int|
                k <= j < cache.len() ==> (#[trigger] cache[j]).0 != h) implies (#[trigger] r.g.halfedges[h]).next
            == e.g.halfedges[h].next by {
            assert(cache[k].0 != h);
            assert(linked.g.halfedges.contains_key(h));
            assert(linked.g.halfedges[h].next == e.g.halfedges[h].next);
        }
        assert forall|h: HalfedgeId|
            e.g.halfedges.contains_key(h) && (forall|j: int|
                k <= j < cache.len() ==> (#[trigger] cache[j]).1 != h) implies (#[trigger] r.g.halfedges[h]).prev
            == e.g.halfedges[h].prev by {
            assert(cache[k].1 != h);
            assert(linked.g.halfedges.contains_key(h));
            assert(linked.g.halfedges[h].prev == e.g.halfedges[h].prev);
        }
        assert forall|h: HalfedgeId| e.g.halfedges.contains_key(h) implies (#[trigger] r.g.halfedges[h]).vertex
            == e.g.halfedges[h].vertex && r.g.halfedges[h].face == e.g.halfedges[h].face
            && r.g.halfedges[h].opposite == e.g.halfedges[h].opposite by {
            assert(linked.g.halfedges.contains_key(h));
        }
    }
}

/// The walk of `next` along a closed chain of halfedges: where each
/// halfedge of `c` leads into the next and the last into the first, and the
/// first does not come again, the walk from the place `j` on visits the rest
/// of the chain.
pub proof fn lemma_loop_walk(g: Graph, c: Seq<HalfedgeId>, j: int, fuel: nat)
    requires
        0 <= j < c.len(),
        fuel >= c.len() - j,
        forall|k: int|
            0 <= k < c.len() ==> g.he_next(#[trigger] c[k]) == Ok::<HalfedgeId, SMeshError>(
                c[next_index(k, c.len() as int)],
            ),
        forall|k: int| 1 <= k < c.len() ==> #[trigger] c[k] != c[0],
    ensures
        g.orbit_from(crate::graph::Turn::Next, c[0], c[j], fuel) == c.skip(j),
    decreases c.len() - j,
{
    let n = c.len() as int;
    assert(g.advance(crate::graph::Turn::Next, c[j]) == Ok::<HalfedgeId, SMeshError>(
        c[next_index(j, n)],
    ));
    if j + 1 < n {
        lemma_loop_walk(g, c, j + 1, (fuel - 1) as nat);
        assert(seq![c[j]] + c.skip(j + 1) =~= c.skip(j));
    } else {
        assert(seq![c[j]] =~= c.skip(j));
    }
}

/// The targets of live halfedges, one for each.
pub proof fn lemma_targets_of_live(g: Graph, hs: Seq<HalfedgeId>)
    requires
        forall|k: int| 0 <= k < hs.len() ==> g.halfedges.contains_key(#[trigger] hs[k]),
    ensures
        g.targets(hs) == Seq::new(hs.len(), |k: int| g.halfedges[hs[k]].vertex),
    decreases hs.len(),
{
    if hs.len() > 0 {
        let rest = hs.drop_first();
        assert forall|k: int| 0 <= k < rest.len() implies g.halfedges.contains_key(
            #[trigger] rest[k],
        ) by {
            assert(rest[k] == hs[k + 1]);
        }
        lemma_targets_of_live(g, rest);
        assert(g.halfedges.contains_key(hs[0]));
        assert(seq![g.halfedges[hs[0]].vertex] + Seq::new(
            rest.len(),
            |k: int| g.halfedges[rest[k]].vertex,
        ) =~= Seq::new(hs.len(), |k: int| g.halfedges[hs[k]].vertex));
    } else {
        assert(g.targets(hs) =~= Seq::new(hs.len(), |k: int| g.halfedges[hs[k]].vertex));
    }
}

/// The graph `after` is `g` with a face `f` over the lone polygon `vs`,
/// whose sides are the halfedge pairs `keys`: the inner halfedges run around
/// the face, the outer ones around the boundary the other way, and every
/// corner stores the outer halfedge that leaves it.
pub open spec fn polygon_built(
    g: Graph,
    after: Graph,
    vs: Seq<VertexId>,
    keys: Seq<(HalfedgeId, HalfedgeId)>,
    f: FaceId,
) -> bool {
    let n = vs.len() as int;
    &&& after.n_vertices == g.n_vertices
    &&& after.n_halfedges == g.n_halfedges + 2 * n
    &&& after.n_faces == g.n_faces + 1
    &&& after.faces == g.faces.insert(f, crate::mesh_elements::Face { halfedge: Some(keys[n - 1].0) })
    &&& after.vertices.dom() == g.vertices.dom()
    &&& forall|j: int|
        0 <= j < n ==> #[trigger] after.vertices[vs[j]] == (Vertex {
            halfedge: Some(keys[prev_index(j, n)].1),
        })
    &&& forall|v: VertexId|
        g.vertices.contains_key(v) && !vs.contains(v) ==> #[trigger] after.vertices[v]
            == g.vertices[v]
    &&& forall|k: int|
        0 <= k < n ==> #[trigger] after.halfedges.contains_key(keys[k].0)
            && after.halfedges.contains_key(keys[k].1)
    &&& forall|k: int|
        0 <= k < n ==> #[trigger] after.halfedges[keys[k].0] == (Halfedge {
            vertex: vs[next_index(k, n)],
            face: Some(f),
            opposite: Some(keys[k].1),
            prev: Some(keys[prev_index(k, n)].0),
            next: Some(keys[next_index(k, n)].0),
        })
    &&& forall|k: int|
        0 <= k < n ==> #[trigger] after.halfedges[keys[k].1] == (Halfedge {
            vertex: vs[k],
            face: None,
            opposite: Some(keys[k].0),
            prev: Some(keys[next_index(k, n)].1),
            next: Some(keys[prev_index(k, n)].1),
        })
    &&& forall|h: HalfedgeId|
        g.halfedges.contains_key(h) ==> #[trigger] after.halfedges.contains_key(h)
            && after.halfedges[h] == g.halfedges[h]
    &&& forall|h: HalfedgeId| #[trigger]
        after.halfedges.contains_key(h) ==> g.halfedges.contains_key(h) || exists|k: int|
            0 <= k < n && (h == (#[trigger] keys[k]).0 || h == keys[k].1)
}

/// The graph `g3` is the graph `g1`, in which every side of the polygon is a
/// pair of bare halfedges, with the polygon linked up around the face `f`.
pub open spec fn polygon_linked(
    g1: Graph,
    g3: Graph,
    vs: Seq<VertexId>,
    keys: Seq<(HalfedgeId, HalfedgeId)>,
    f: FaceId,
) -> bool {
    let n = vs.len() as int;
    &&& g3.n_vertices == g1.n_vertices
    &&& g3.n_halfedges == g1.n_halfedges
    &&& g3.n_faces == g1.n_faces
    &&& g3.faces == g1.faces
    &&& g3.vertices.dom() == g1.vertices.dom()
    &&& g3.halfedges.dom() == g1.halfedges.dom()
    &&& forall|j: int|
        0 <= j < n ==> #[trigger] g3.vertices[vs[j]] == (Vertex {
            halfedge: Some(keys[prev_index(j, n)].1),
        })
    &&& forall|v: VertexId|
        g1.vertices.contains_key(v) && !vs.contains(v) ==> #[trigger] g3.vertices[v]
            == g1.vertices[v]
    &&& forall|k: int|
        0 <= k < n ==> #[trigger] g3.halfedges[keys[k].0] == (Halfedge {
            vertex: vs[next_index(k, n)],
            face: Some(f),
            opposite: Some(keys[k].1),
            prev: Some(keys[prev_index(k, n)].0),
            next: Some(keys[next_index(k, n)].0),
        })
    &&& forall|k: int|
        0 <= k < n ==> #[trigger] g3.halfedges[keys[k].1] == (Halfedge {
            vertex: vs[k],
            face: None,
            opposite: Some(keys[k].0),
            prev: Some(keys[next_index(k, n)].1),
            next: Some(keys[prev_index(k, n)].1),
        })
    &&& forall|h: HalfedgeId|
        g1.halfedges.contains_key(h) && !is_side(keys, h) ==> #[trigger] g3.halfedges[h]
            == g1.halfedges[h]
}

/// Whether `h` is one of the halfedges of the sides.
pub open spec fn is_side(keys: Seq<(HalfedgeId, HalfedgeId)>, h: HalfedgeId) -> bool {
    exists|k: int| 0 <= k < keys.len() && (h == (#[trigger] keys[k]).0 || h == keys[k].1)
}

/// The noted links of a lone polygon name live halfedges, no two start at
/// the same halfedge, and no two end at the same.
proof fn lemma_corner_links_sound(
    g1: Graph,
    g2: Graph,
    vs: Seq<VertexId>,
    keys: Seq<(HalfedgeId, HalfedgeId)>,
)
    requires
        bare_polygon(g1, vs, keys),
        g2.halfedges.dom() == g1.halfedges.dom(),
    ensures
        forall|j: int|
            0 <= j < corner_links(vs.len() as int, keys, vs.len() as int).len()
                ==> g2.halfedges.contains_key(
                (#[trigger] corner_links(vs.len() as int, keys, vs.len() as int)[j]).0,
            ) && g2.halfedges.contains_key(
                corner_links(vs.len() as int, keys, vs.len() as int)[j].1,
            ),
        forall|j: int, l: int|
            0 <= j < l < corner_links(vs.len() as int, keys, vs.len() as int).len() ==> (
            #[trigger] corner_links(vs.len() as int, keys, vs.len() as int)[j]).0 != (
            #[trigger] corner_links(vs.len() as int, keys, vs.len() as int)[l]).0 && corner_links(
                vs.len() as int,
                keys,
                vs.len() as int,
            )[j].1 != corner_links(vs.len() as int, keys, vs.len() as int)[l].1,
{
    let n = vs.len() as int;
    let cache = corner_links(n, keys, n);
    assert forall|j: int| 0 <= j < cache.len() implies g2.halfedges.contains_key(
        (#[trigger] cache[j]).0,
    ) && g2.halfedges.contains_key(cache[j].1) by {
        let k = j / 2;
        let kk = next_index(k, n);
        assert(g1.halfedges.contains_key(keys[k].0) && g1.halfedges.contains_key(keys[k].1));
        assert(g1.halfedges.contains_key(keys[kk].0) && g1.halfedges.contains_key(keys[kk].1));
    }
    assert forall|j: int, l: int| 0 <= j < l < cache.len() implies (#[trigger] cache[j]).0 != (
    #[trigger] cache[l]).0 && cache[j].1 != cache[l].1 by {
        let a = j / 2;
        let b = l / 2;
        let an = next_index(a, n);
        let bn = next_index(b, n);
        lemma_keys_differ(vs, keys, g1, a, b);
        lemma_keys_differ(vs, keys, g1, an, bn);
        lemma_keys_differ(vs, keys, g1, a, bn);
        lemma_keys_differ(vs, keys, g1, an, b);
        lemma_keys_differ(vs, keys, g1, b, an);
        lemma_keys_differ(vs, keys, g1, bn, a);
    }
}

/// Making the noted links of a lone polygon whose corners are linked.
pub proof fn lemma_links_of_corners(
    g1: Graph,
    st: LinkState,
    vs: Seq<VertexId>,
    keys: Seq<(HalfedgeId, HalfedgeId)>,
    f: FaceId,
)
    requires
        bare_polygon(g1, vs, keys),
        corners_linked(g1, st, vs, keys, f, vs.len() as int),
    ensures
        st.edit.apply_links(st.cache, 0).err is None,
        polygon_linked(g1, st.edit.apply_links(st.cache, 0).g, vs, keys, f),
{
    let n = vs.len() as int;
    let g2 = st.edit.g;
    let cache = st.cache;
    lemma_corner_links_sound(g1, g2, vs, keys);
    lemma_apply_links_pointwise(st.edit, cache, 0);
    let g3 = st.edit.apply_links(cache, 0).g;
    assert forall|k: int| 0 <= k < n implies #[trigger] g3.halfedges[keys[k].0] == (Halfedge {
        vertex: vs[next_index(k, n)],
        face: Some(f),
        opposite: Some(keys[k].1),
        prev: Some(keys[prev_index(k, n)].0),
        next: Some(keys[next_index(k, n)].0),
    }) by {
        lemma_linked_side(g1, st, vs, keys, f, k);
    }
    assert forall|k: int| 0 <= k < n implies #[trigger] g3.halfedges[keys[k].1] == (Halfedge {
        vertex: vs[k],
        face: None,
        opposite: Some(keys[k].0),
        prev: Some(keys[next_index(k, n)].1),
        next: Some(keys[prev_index(k, n)].1),
    }) by {
        lemma_linked_side(g1, st, vs, keys, f, k);
    }
    assert forall|h: HalfedgeId|
        g1.halfedges.contains_key(h) && !is_side(keys, h) implies #[trigger] g3.halfedges[h]
        == g1.halfedges[h] by {
        lemma_unlinked_rest(g1, st, vs, keys, f, h);
    }
    assert forall|j: int| 0 <= j < n implies #[trigger] g3.vertices[vs[j]] == (Vertex {
        halfedge: Some(keys[prev_index(j, n)].1),
    }) by {
        assert(corner_done(j, n, n));
        assert(g2.vertices[vs[j]].halfedge == Some(keys[prev_index(j, n)].1));
    }
}

/// A halfedge that is no side of the polygon is as it was once the noted
/// links are made.
proof fn lemma_unlinked_rest(
    g1: Graph,
    st: LinkState,
    vs: Seq<VertexId>,
    keys: Seq<(HalfedgeId, HalfedgeId)>,
    f: FaceId,
    h: HalfedgeId,
)
    requires
        bare_polygon(g1, vs, keys),
        corners_linked(g1, st, vs, keys, f, vs.len() as int),
        g1.halfedges.contains_key(h),
        !is_side(keys, h),
        forall|x: HalfedgeId|
            st.edit.g.halfedges.contains_key(x) ==> (#[trigger] st.edit.apply_links(
                st.cache,
                0,
            ).g.halfedges[x]).vertex == st.edit.g.halfedges[x].vertex && st.edit.apply_links(
                st.cache,
                0,
            ).g.halfedges[x].face == st.edit.g.halfedges[x].face && st.edit.apply_links(
                st.cache,
                0,
            ).g.halfedges[x].opposite == st.edit.g.halfedges[x].opposite,
        forall|x: HalfedgeId|
            st.edit.g.halfedges.contains_key(x) && (forall|j: int|
                0 <= j < st.cache.len() ==> (#[trigger] st.cache[j]).0 != x) ==> (
            #[trigger] st.edit.apply_links(st.cache, 0).g.halfedges[x]).next
                == st.edit.g.halfedges[x].next,
        forall|x: HalfedgeId|
            st.edit.g.halfedges.contains_key(x) && (forall|j: int|
                0 <= j < st.cache.len() ==> (#[trigger] st.cache[j]).1 != x) ==> (
            #[trigger] st.edit.apply_links(st.cache, 0).g.halfedges[x]).prev
                == st.edit.g.halfedges[x].prev,
    ensures
        st.edit.apply_links(st.cache, 0).g.halfedges[h] == g1.halfedges[h],
{
    let n = vs.len() as int;
    let cache = st.cache;
    let g2 = st.edit.g;
    let g3 = st.edit.apply_links(cache, 0).g;
    assert forall|k: int| 0 <= k < n implies h != (#[trigger] keys[k]).0 && h != keys[k].1 by {}
    assert(g2.halfedges[h] == g1.halfedges[h]);
    assert(g2.halfedges.contains_key(h));
    assert forall|j: int| 0 <= j < cache.len() implies (#[trigger] cache[j]).0 != h by {
        let k = j / 2;
        let kk = next_index(k, n);
        assert(h != keys[k].0 && h != keys[k].1);
        assert(h != keys[kk].0 && h != keys[kk].1);
    }
    assert forall|j: int| 0 <= j < cache.len() implies (#[trigger] cache[j]).1 != h by {
        let k = j / 2;
        let kk = next_index(k, n);
        assert(h != keys[k].0 && h != keys[k].1);
        assert(h != keys[kk].0 && h != keys[kk].1);
    }
    assert(g3.halfedges[h].next == g2.halfedges[h].next);
    assert(g3.halfedges[h].prev == g2.halfedges[h].prev);
    assert(g3.halfedges[h].vertex == g2.halfedges[h].vertex);
}

/// The two halfedges of the `k`-th side once the noted links are made.
proof fn lemma_linked_side(
    g1: Graph,
    st: LinkState,
    vs: Seq<VertexId>,
    keys: Seq<(HalfedgeId, HalfedgeId)>,
    f: FaceId,
    k: int,
)
    requires
        bare_polygon(g1, vs, keys),
        corners_linked(g1, st, vs, keys, f, vs.len() as int),
        0 <= k < vs.len(),
        st.edit.apply_links(st.cache, 0).err is None,
        st.edit.apply_links(st.cache, 0).g.halfedges.dom() == st.edit.g.halfedges.dom(),
        forall|h: HalfedgeId|
            st.edit.g.halfedges.contains_key(h) ==> (#[trigger] st.edit.apply_links(
                st.cache,
                0,
            ).g.halfedges[h]).vertex == st.edit.g.halfedges[h].vertex && st.edit.apply_links(
                st.cache,
                0,
            ).g.halfedges[h].face == st.edit.g.halfedges[h].face && st.edit.apply_links(
                st.cache,
                0,
            ).g.halfedges[h].opposite == st.edit.g.halfedges[h].opposite,
        forall|j: int|
            0 <= j < st.cache.len() ==> st.edit.apply_links(st.cache, 0).g.halfedges[(
            #[trigger] st.cache[j]).0].next == Some(st.cache[j].1) && st.edit.apply_links(
                st.cache,
                0,
            ).g.halfedges[st.cache[j].1].prev == Some(st.cache[j].0),
    ensures
        st.edit.apply_links(st.cache, 0).g.halfedges[keys[k].0] == (Halfedge {
            vertex: vs[next_index(k, vs.len() as int)],
            face: Some(f),
            opposite: Some(keys[k].1),
            prev: Some(keys[prev_index(k, vs.len() as int)].0),
            next: Some(keys[next_index(k, vs.len() as int)].0),
        }),
        st.edit.apply_links(st.cache, 0).g.halfedges[keys[k].1] == (Halfedge {
            vertex: vs[k],
            face: None,
            opposite: Some(keys[k].0),
            prev: Some(keys[next_index(k, vs.len() as int)].1),
            next: Some(keys[prev_index(k, vs.len() as int)].1),
        }),
{
    let n = vs.len() as int;
    let cache = st.cache;
    let g2 = st.edit.g;
    let p = prev_index(k, n);
    assert(cache == corner_links(n, keys, n));
    assert(g1.halfedges.contains_key(keys[k].0) && g1.halfedges.contains_key(keys[k].1));
    assert(g2.halfedges.contains_key(keys[k].0) && g2.halfedges.contains_key(keys[k].1));
    assert(next_index(p, n) == k);
    assert(cache[2 * k + 1] == (keys[k].0, keys[next_index(k, n)].0));
    assert(cache[2 * p + 1] == (keys[p].0, keys[k].0));
    assert(cache[2 * k] == (keys[next_index(k, n)].1, keys[k].1));
    assert(cache[2 * p] == (keys[k].1, keys[p].1));
    assert(g2.halfedges[keys[k].0] == (Halfedge { face: Some(f), ..bare_inner(vs, keys, k) }));
    assert(g2.halfedges[keys[k].1] == bare_outer(vs, keys, k));
}

/// After the sides and the face record of a lone polygon are made, every
/// side is a pair of bare halfedges.
proof fn lemma_sides_are_bare(
    g: Graph,
    vs: Seq<VertexId>,
    keys: Seq<(HalfedgeId, HalfedgeId)>,
    f: FaceId,
)
    requires
        lone_polygon(g, vs),
        fresh_sides(g, no_sides(vs.len()), keys),
        !g.faces.contains_key(f),
    ensures
        Edit::of(g).create_sides(vs, no_sides(vs.len()), keys, 0).err is None,
        sides_made(g, Edit::of(g).create_sides(vs, no_sides(vs.len()), keys, 0).g, vs, keys, 0),
        bare_polygon(
            Edit::of(g).create_sides(vs, no_sides(vs.len()), keys, 0).add_face_record(
                f,
                Some(keys[vs.len() - 1].0),
            ).g,
            vs,
            keys,
        ),
{
    let n = vs.len() as int;
    let existing = no_sides(vs.len());
    assert forall|k: int| 0 <= k < n implies !g.halfedges.contains_key((#[trigger] keys[k]).0)
        && !g.halfedges.contains_key(keys[k].1) && keys[k].0 != keys[k].1 by {
        assert(existing[k] is None);
    }
    assert forall|k: int, l: int| 0 <= k < l < n implies (#[trigger] keys[k]).0 != (
    #[trigger] keys[l]).0 && keys[k].0 != keys[l].1 && keys[k].1 != keys[l].0 && keys[k].1
        != keys[l].1 by {
        assert(existing[k] is None && existing[l] is None);
    }
    lemma_create_all_sides(Edit::of(g), vs, keys, 0);
}

/// Building a face over a lone polygon succeeds and gives `polygon_built`.
pub proof fn lemma_build_lone_polygon(
    g: Graph,
    vs: Seq<VertexId>,
    keys: Seq<(HalfedgeId, HalfedgeId)>,
    f: FaceId,
)
    requires
        lone_polygon(g, vs),
        fresh_sides(g, no_sides(vs.len()), keys),
        !g.faces.contains_key(f),
    ensures
        g.build_face(
            vs,
            FacePlan { existing: no_sides(vs.len()), relinks: Seq::empty() },
            keys,
            f,
        ).err is None,
        polygon_built(
            g,
            g.build_face(
                vs,
                FacePlan { existing: no_sides(vs.len()), relinks: Seq::empty() },
                keys,
                f,
            ).g,
            vs,
            keys,
            f,
        ),
{
    let n = vs.len() as int;
    let existing = no_sides(vs.len());
    let sides = face_sides(existing, keys);
    lemma_sides_are_bare(g, vs, keys, f);
    let e1 = Edit::of(g).create_sides(vs, existing, keys, 0);
    assert(sides[n - 1] == (keys[n - 1].0, true));
    let e2 = e1.add_face_record(f, Some(sides[n - 1].0));
    let g1 = e2.g;
    let st0 = LinkState { edit: e2, cache: Seq::empty(), adjust: Seq::empty() };
    assert(corners_linked(g1, st0, vs, keys, f, 0)) by {
        assert(st0.cache =~= corner_links(n, keys, 0));
    }
    lemma_link_lone_corners(g1, st0, vs, keys, f, 0);
    let st = link_corners(st0, vs, sides, f, 0);
    lemma_links_of_corners(g1, st, vs, keys, f);
    let e3 = st.edit.apply_links(st.cache, 0);
    assert(e3.adjust_all(st.adjust, 0) == e3);
    assert(g.build_face(vs, FacePlan { existing, relinks: Seq::empty() }, keys, f) == e3);
    lemma_polygon_assembled(g, e1.g, g1, e3.g, vs, keys, f);
}

/// The two steps of a lone polygon put together.
proof fn lemma_polygon_assembled(
    g: Graph,
    g0: Graph,
    g1: Graph,
    g3: Graph,
    vs: Seq<VertexId>,
    keys: Seq<(HalfedgeId, HalfedgeId)>,
    f: FaceId,
)
    requires
        vs.len() >= 3,
        keys.len() == vs.len(),
        sides_made(g, g0, vs, keys, 0),
        g1 == g0.plus_face(f, crate::mesh_elements::Face { halfedge: Some(keys[vs.len() - 1].0) }),
        polygon_linked(g1, g3, vs, keys, f),
        forall|k: int|
            0 <= k < vs.len() ==> !g.halfedges.contains_key((#[trigger] keys[k]).0)
                && !g.halfedges.contains_key(keys[k].1),
    ensures
        polygon_built(g, g3, vs, keys, f),
{
    let n = vs.len() as int;
    assert forall|h: HalfedgeId| g.halfedges.contains_key(h) implies #[trigger] g3.halfedges.contains_key(
        h,
    ) && g3.halfedges[h] == g.halfedges[h] by {
        assert(g0.halfedges.contains_key(h));
        assert(g1.halfedges.contains_key(h));
        if is_side(keys, h) {
            let k = choose|k: int| 0 <= k < keys.len() && (h == (#[trigger] keys[k]).0 || h == keys[k].1);
            assert(!g.halfedges.contains_key(keys[k].0));
        }
    }
    assert forall|h: HalfedgeId| #[trigger] g3.halfedges.contains_key(h) implies g.halfedges.contains_key(
        h,
    ) || exists|k: int| 0 <= k < n && (h == (#[trigger] keys[k]).0 || h == keys[k].1) by {
        assert(g1.halfedges.contains_key(h));
        assert(g0.halfedges.contains_key(h));
    }
    assert forall|k: int| 0 <= k < n implies #[trigger] g3.halfedges.contains_key(keys[k].0)
        && g3.halfedges.contains_key(keys[k].1) by {
        assert(g0.halfedges.contains_key(keys[k].0));
        assert(g1.halfedges.contains_key(keys[k].0));
        assert(g1.halfedges.contains_key(keys[k].1));
    }
}

/// The halfedges of two different sides of a bare polygon differ, and so do
/// the two of one side.
proof fn lemma_keys_differ(
    vs: Seq<VertexId>,
    keys: Seq<(HalfedgeId, HalfedgeId)>,
    g1: Graph,
    a: int,
    b: int,
)
    requires
        bare_polygon(g1, vs, keys),
        0 <= a < vs.len(),
        0 <= b < vs.len(),
    ensures
        keys[a].0 != keys[b].1,
        a != b ==> keys[a].0 != keys[b].0 && keys[a].1 != keys[b].1,
{
    if a < b {
        assert(keys[a].0 != keys[b].0 && keys[a].0 != keys[b].1 && keys[a].1 != keys[b].0);
    } else if b < a {
        assert(keys[b].0 != keys[a].0 && keys[b].0 != keys[a].1 && keys[b].1 != keys[a].0);
    } else {
        assert(keys[a].0 != keys[a].1);
    }
}

/// The loop of a face over a lone polygon: the inner halfedges from the
/// last side on.
pub open spec fn polygon_loop(keys: Seq<(HalfedgeId, HalfedgeId)>) -> Seq<HalfedgeId> {
    Seq::new(keys.len(), |j: int| keys[prev_index(j, keys.len() as int)].0)
}

/// The rings of a face that was built over a lone polygon.
pub proof fn lemma_polygon_rings(
    g: Graph,
    after: Graph,
    vs: Seq<VertexId>,
    keys: Seq<(HalfedgeId, HalfedgeId)>,
    f: FaceId,
)
    requires
        vs.len() >= 3,
        keys.len() == vs.len(),
        polygon_built(g, after, vs, keys, f),
        forall|k: int, l: int|
            0 <= k < l < keys.len() ==> (#[trigger] keys[k]).0 != (#[trigger] keys[l]).0,
    ensures
        after.face_halfedges(f) == polygon_loop(keys),
        after.face_vertices(f) == vs,
        after.face_valence(f) == vs.len(),
{
    let n = vs.len() as int;
    let c = polygon_loop(keys);
    assert(after.faces.contains_key(f));
    assert(after.face_halfedge(f) == Ok::<HalfedgeId, SMeshError>(keys[n - 1].0));
    assert(c[0] == keys[n - 1].0);
    assert forall|k: int| 0 <= k < c.len() implies after.he_next(#[trigger] c[k]) == Ok::<
        HalfedgeId,
        SMeshError,
    >(c[next_index(k, c.len() as int)]) by {
        let p = prev_index(k, n);
        assert(c[k] == keys[p].0);
        assert(after.halfedges.contains_key(keys[p].0));
        assert(after.halfedges[keys[p].0].next == Some(keys[next_index(p, n)].0));
        assert(next_index(p, n) == k);
        assert(c[next_index(k, n)] == keys[prev_index(next_index(k, n), n)].0);
        assert(prev_index(next_index(k, n), n) == k);
    }
    assert forall|k: int| 1 <= k < c.len() implies #[trigger] c[k] != c[0] by {
        assert(c[k] == keys[k - 1].0);
        assert(keys[k - 1].0 != keys[n - 1].0);
    }
    lemma_loop_walk(after, c, 0, after.n_halfedges);
    assert(c.skip(0) =~= c);
    assert(after.halfedges.contains_key(c[0])) by {
        assert(after.halfedges.contains_key(keys[n - 1].0));
    }
    assert(after.orbit(crate::graph::Turn::Next, c[0]) == c);
    assert forall|k: int| 0 <= k < c.len() implies after.halfedges.contains_key(#[trigger] c[k]) by {
        let p = prev_index(k, n);
        assert(after.halfedges.contains_key(keys[p].0));
    }
    lemma_targets_of_live(after, c);
    assert(Seq::new(c.len(), |k: int| after.halfedges[c[k]].vertex) =~= vs) by {
        assert forall|k: int| 0 <= k < n implies after.halfedges[c[k]].vertex == vs[k] by {
            let p = prev_index(k, n);
            assert(c[k] == keys[p].0);
            assert(after.halfedges[keys[p].0].vertex == vs[next_index(p, n)]);
            assert(next_index(p, n) == k);
        }
    }
}

} // verus!
