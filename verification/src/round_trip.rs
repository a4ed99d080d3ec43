use vstd::prelude::*;
use crate::edit::Edit;
use crate::error::SMeshError;
use crate::face_plan::next_index;
use crate::graph::Graph;
use crate::mesh_elements::{FaceId, Halfedge, HalfedgeId, Vertex, VertexId};
use crate::polygon::{lemma_polygon_rings, polygon_built, polygon_loop, prev_index};

verus! {

/// The keys of the sides differ from each other, and none is live in `g`.
pub open spec fn sides_apart(g: Graph, keys: Seq<(HalfedgeId, HalfedgeId)>) -> bool {
    &&& forall|k: int|
        0 <= k < keys.len() ==> !g.halfedges.contains_key((#[trigger] keys[k]).0)
            && !g.halfedges.contains_key(keys[k].1) && keys[k].0 != keys[k].1
    &&& forall|k: int, l: int|
        0 <= k < l < keys.len() ==> (#[trigger] keys[k]).0 != (#[trigger] keys[l]).0 && keys[k].0
            != keys[l].1 && keys[k].1 != keys[l].0 && keys[k].1 != keys[l].1
}

/// Taking the face off every halfedge from the `i`-th on, where all of them
/// are live: their faces go, and nothing else is changed.
pub proof fn lemma_clear_faces_pointwise(e: Edit, hs: Seq<HalfedgeId>, i: int)
    requires
        e.err is None,
        0 <= i <= hs.len(),
        forall|k: int| i <= k < hs.len() ==> e.g.halfedges.contains_key(#[trigger] hs[k]),
    ensures
        e.clear_faces(hs, i).err is None,
        e.clear_faces(hs, i).g.vertices == e.g.vertices,
        e.clear_faces(hs, i).g.faces == e.g.faces,
        e.clear_faces(hs, i).g.n_vertices == e.g.n_vertices,
        e.clear_faces(hs, i).g.n_halfedges == e.g.n_halfedges,
        e.clear_faces(hs, i).g.n_faces == e.g.n_faces,
        e.clear_faces(hs, i).g.halfedges.dom() == e.g.halfedges.dom(),
        forall|k: int|
            i <= k < hs.len() ==> #[trigger] e.clear_faces(hs, i).g.halfedges[hs[k]] == (Halfedge {
                face: None,
                ..e.g.halfedges[hs[k]]
            }),
        forall|h: HalfedgeId|
            e.g.halfedges.contains_key(h) && (forall|k: int| i <= k < hs.len() ==> #[trigger] hs[k] != h)
                ==> #[trigger] e.clear_faces(hs, i).g.halfedges[h] == e.g.halfedges[h],
    decreases hs.len() - i,
{
    if i < hs.len() {
        let cleared = e.set_face(hs[i], None);
        assert(e.g.halfedges.contains_key(hs[i]));
        assert(cleared.g.halfedges.dom() =~= e.g.halfedges.dom());
        assert forall|k: int| i + 1 <= k < hs.len() implies cleared.g.halfedges.contains_key(
            #[trigger] hs[k],
        ) by {
            assert(e.g.halfedges.contains_key(hs[k]));
        }
        lemma_clear_faces_pointwise(cleared, hs, i + 1);
        let r = e.clear_faces(hs, i).g;
        assert forall|k: int| i <= k < hs.len() implies #[trigger] r.halfedges[hs[k]] == (Halfedge {
            face: None,
            ..e.g.halfedges[hs[k]]
        }) by {
            if k == i {
                if forall|l: int| i + 1 <= l < hs.len() ==> #[trigger] hs[l] != hs[i] {
                    assert(cleared.g.halfedges.contains_key(hs[i]));
                } else {
                    let l = choose|l: int| i + 1 <= l < hs.len() && #[trigger] hs[l] == hs[i];
                    assert(r.halfedges[hs[l]] == (Halfedge { face: None, ..cleared.g.halfedges[hs[l]] }));
                }
            } else {
                assert(r.halfedges[hs[k]] == (Halfedge { face: None, ..cleared.g.halfedges[hs[k]] }));
            }
        }
        assert forall|h: HalfedgeId|
            e.g.halfedges.contains_key(h) && (forall|k: int|
                i <= k < hs.len() ==> #[trigger] hs[k] != h) implies #[trigger] r.halfedges[h]
            == e.g.halfedges[h] by {
            assert(hs[i] != h);
            assert(cleared.g.halfedges.contains_key(h));
        }
    }
}

/// Where the opposite of every halfedge is on the boundary, every halfedge
/// is a lone edge.
pub proof fn lemma_all_lone(g: Graph, hs: Seq<HalfedgeId>, i: int, acc: Seq<HalfedgeId>)
    requires
        0 <= i <= hs.len(),
        forall|k: int| i <= k < hs.len() ==> g.opposite_is_boundary(#[trigger] hs[k]),
    ensures
        g.lone_edges(hs, i, acc) == acc + hs.skip(i),
    decreases hs.len() - i,
{
    if i < hs.len() {
        lemma_all_lone(g, hs, i + 1, acc.push(hs[i]));
        assert(acc.push(hs[i]) + hs.skip(i + 1) =~= acc + hs.skip(i));
    } else {
        assert(acc + hs.skip(i) =~= acc);
    }
}

/// The targets of live halfedges can all be read.
pub proof fn lemma_corners_readable(g: Graph, hs: Seq<HalfedgeId>, i: int)
    requires
        0 <= i <= hs.len(),
        forall|k: int| i <= k < hs.len() ==> g.halfedges.contains_key(#[trigger] hs[k]),
    ensures
        g.corners_readable(hs, i) is Ok,
    decreases hs.len() - i,
{
    if i < hs.len() {
        lemma_corners_readable(g, hs, i + 1);
    }
}

/// The record of the inner halfedge of the side `k` while the sides from
/// `t - 1` to the last but one are still there, as an open chain.
pub open spec fn chain_inner(
    vs: Seq<VertexId>,
    keys: Seq<(HalfedgeId, HalfedgeId)>,
    t: int,
    k: int,
) -> Halfedge {
    let n = vs.len() as int;
    Halfedge {
        vertex: vs[k + 1],
        face: None,
        opposite: Some(keys[k].1),
        next: Some(
            if k < n - 2 {
                keys[k + 1].0
            } else {
                keys[n - 2].1
            },
        ),
        prev: Some(
            if k > t - 1 {
                keys[k - 1].0
            } else {
                keys[t - 1].1
            },
        ),
    }
}

/// The record of the outer halfedge of the side `k` in the open chain.
pub open spec fn chain_outer(
    vs: Seq<VertexId>,
    keys: Seq<(HalfedgeId, HalfedgeId)>,
    t: int,
    k: int,
) -> Halfedge {
    let n = vs.len() as int;
    Halfedge {
        vertex: vs[k],
        face: None,
        opposite: Some(keys[k].0),
        next: Some(
            if k > t - 1 {
                keys[k - 1].1
            } else {
                keys[t - 1].0
            },
        ),
        prev: Some(
            if k < n - 2 {
                keys[k + 1].1
            } else {
                keys[n - 2].0
            },
        ),
    }
}

/// Whether `h` is a halfedge of one of the sides from `t - 1` to the last
/// but one.
pub open spec fn in_chain(keys: Seq<(HalfedgeId, HalfedgeId)>, t: int, h: HalfedgeId) -> bool {
    exists|k: int| t - 1 <= k <= keys.len() - 2 && (h == (#[trigger] keys[k]).0 || h == keys[k].1)
}

/// The graph `s` while a face over the lone polygon `vs` of `g` is being
/// removed: the last side and the sides before `t - 1` are gone, with the
/// corners before `t - 1`; the other sides hang together as an open chain.
pub open spec fn open_chain(
    g: Graph,
    s: Graph,
    vs: Seq<VertexId>,
    keys: Seq<(HalfedgeId, HalfedgeId)>,
    t: int,
) -> bool {
    let n = vs.len() as int;
    &&& s.faces == g.faces
    &&& s.n_faces == g.n_faces
    &&& s.n_halfedges == g.n_halfedges + 2 * (n - t)
    &&& s.n_vertices == g.n_vertices - (t - 1)
    &&& forall|k: int|
        t - 1 <= k <= n - 2 ==> #[trigger] s.halfedges.contains_key(keys[k].0)
            && s.halfedges.contains_key(keys[k].1)
    &&& forall|k: int|
        t - 1 <= k <= n - 2 ==> #[trigger] s.halfedges[keys[k].0] == chain_inner(vs, keys, t, k)
    &&& forall|k: int|
        t - 1 <= k <= n - 2 ==> #[trigger] s.halfedges[keys[k].1] == chain_outer(vs, keys, t, k)
    &&& forall|h: HalfedgeId|
        g.halfedges.contains_key(h) ==> #[trigger] s.halfedges.contains_key(h) && s.halfedges[h]
            == g.halfedges[h]
    &&& forall|h: HalfedgeId| #[trigger]
        s.halfedges.contains_key(h) ==> g.halfedges.contains_key(h) || in_chain(keys, t, h)
    &&& forall|v: VertexId|
        g.vertices.contains_key(v) && !vs.contains(v) ==> #[trigger] s.vertices.contains_key(v)
            && s.vertices[v] == g.vertices[v]
    &&& forall|j: int| t - 1 <= j <= n - 1 ==> #[trigger] s.vertices.contains_key(vs[j])
    &&& forall|j: int|
        t - 1 <= j <= n - 1 ==> #[trigger] s.vertices[vs[j]] == (Vertex {
            halfedge: Some(
                if j == t - 1 {
                    keys[t - 1].0
                } else {
                    keys[j - 1].1
                },
            ),
        })
    &&& forall|j: int| 0 <= j < t - 1 ==> !s.vertices.contains_key(#[trigger] vs[j])
    &&& forall|v: VertexId| #[trigger] s.vertices.contains_key(v) ==> g.vertices.contains_key(v)
}

/// The graph `s` is `g` without the vertices `vs`.
pub open spec fn polygon_gone(g: Graph, s: Graph, vs: Seq<VertexId>) -> bool {
    &&& s.faces == g.faces
    &&& s.halfedges == g.halfedges
    &&& s.n_faces == g.n_faces
    &&& s.n_halfedges == g.n_halfedges
    &&& s.n_vertices == g.n_vertices - vs.len()
    &&& forall|v: VertexId|
        #[trigger] s.vertices.contains_key(v) <==> g.vertices.contains_key(v) && !vs.contains(v)
    &&& forall|v: VertexId| #[trigger] s.vertices.contains_key(v) ==> s.vertices[v] == g.vertices[v]
}

/// What the lemmas about the removal take for granted: a polygon of at
/// least three different vertices of `g`, and keys that are apart.
pub open spec fn removal_ground(g: Graph, vs: Seq<VertexId>, keys: Seq<(HalfedgeId, HalfedgeId)>) -> bool {
    &&& vs.len() >= 3
    &&& keys.len() == vs.len()
    &&& vs.no_duplicates()
    &&& sides_apart(g, keys)
    &&& g.n_vertices >= vs.len()
    &&& forall|j: int| 0 <= j < vs.len() ==> g.vertices.contains_key(#[trigger] vs[j])
}

/// Two keys of different sides differ, and so do the two of one side.
proof fn lemma_apart(g: Graph, keys: Seq<(HalfedgeId, HalfedgeId)>, a: int, b: int)
    requires
        sides_apart(g, keys),
        0 <= a < keys.len(),
        0 <= b < keys.len(),
    ensures
        keys[a].0 != keys[b].1,
        a != b ==> keys[a].0 != keys[b].0 && keys[a].1 != keys[b].1,
{
    if a < b {
        assert(keys[a].0 != keys[b].0 && keys[a].0 != keys[b].1 && keys[a].1 != keys[b].0);
    } else if b < a {
        assert(keys[b].0 != keys[a].0 && keys[b].0 != keys[a].1 && keys[b].1 != keys[a].0);
    } else {
        assert(keys[a].0 != keys[a].1);
    }
}

/// Removing the first side of the open chain, where it is not the last one
/// left.
pub proof fn lemma_unlink_step(
    g: Graph,
    e: Edit,
    vs: Seq<VertexId>,
    keys: Seq<(HalfedgeId, HalfedgeId)>,
    t: int,
)
    requires
        removal_ground(g, vs, keys),
        1 <= t <= vs.len() - 2,
        e.err is None,
        open_chain(g, e.g, vs, keys, t),
    ensures
        e.unlink_edge(keys[t - 1].0).err is None,
        open_chain(g, e.unlink_edge(keys[t - 1].0).g, vs, keys, t + 1),
{
    let n = vs.len() as int;
    let s = e.g;
    let h0 = keys[t - 1].0;
    let o = keys[t - 1].1;
    let hn = keys[t].0;
    let on = keys[t].1;
    lemma_apart(g, keys, t - 1, t);
    lemma_apart(g, keys, t, t - 1);
    lemma_apart(g, keys, t - 1, t - 1);
    lemma_apart(g, keys, t, t);
    assert(s.halfedges.contains_key(keys[t - 1].0) && s.halfedges.contains_key(keys[t - 1].1));
    assert(s.halfedges.contains_key(keys[t].0) && s.halfedges.contains_key(keys[t].1));
    assert(s.halfedges[keys[t - 1].0] == chain_inner(vs, keys, t, t - 1));
    assert(s.halfedges[keys[t - 1].1] == chain_outer(vs, keys, t, t - 1));
    assert(s.halfedges[keys[t].0] == chain_inner(vs, keys, t, t));
    assert(s.halfedges[keys[t].1] == chain_outer(vs, keys, t, t));
    assert(s.vertices.contains_key(vs[t]) && s.vertices.contains_key(vs[t - 1]));
    assert(s.vertices[vs[t]] == (Vertex { halfedge: Some(o) }));
    assert(s.vertices[vs[t - 1]] == (Vertex { halfedge: Some(h0) }));
    assert(vs[t] != vs[t - 1]);
    let e1 = e.set_next(o, Some(h0));
    assert(e1.g.halfedges =~= s.halfedges);
    assert(e1 == e);
    let e2 = e1.set_next(on, Some(hn));
    assert(e2.err is None);
    let e3 = e2.drop_edge(h0);
    assert(e2.g.halfedges[h0].opposite == Some(o));
    assert(e3.g.halfedges =~= e2.g.halfedges.remove(h0).remove(o));
    let e4 = e3.release_vertex(vs[t], o, hn);
    assert(e3.g.vertex_halfedge(vs[t]) == Ok::<HalfedgeId, SMeshError>(o));
    assert(e4 == e3.set_vertex_halfedge(vs[t], Some(hn)));
    let e5 = e4.release_vertex(vs[t - 1], h0, h0);
    assert(e4.g.vertex_halfedge(vs[t - 1]) == Ok::<HalfedgeId, SMeshError>(h0));
    assert(e5 == e4.drop_vertex(vs[t - 1]));
    assert(e.unlink_edge(h0) == e5);
    let z = e5.g;
    assert(z.faces == g.faces);
    assert(z.n_faces == g.n_faces);
    assert(e3.g.n_halfedges == s.n_halfedges - 2);
    assert(z.n_halfedges == g.n_halfedges + 2 * (n - (t + 1)));
    assert(z.n_vertices == s.n_vertices - 1);
    assert(z.halfedges =~= s.halfedges.insert(on, Halfedge { next: Some(hn), ..s.halfedges[on] }).insert(
        hn,
        Halfedge { prev: Some(on), ..s.halfedges[hn] },
    ).remove(h0).remove(o));
    assert(z.vertices =~= s.vertices.insert(vs[t], Vertex { halfedge: Some(hn) }).remove(vs[t - 1]));
    assert forall|k: int| t <= k <= n - 2 implies #[trigger] z.halfedges.contains_key(keys[k].0)
        && z.halfedges.contains_key(keys[k].1) by {
        lemma_apart(g, keys, k, t - 1);
        lemma_apart(g, keys, t - 1, k);
        assert(s.halfedges.contains_key(keys[k].0));
    }
    assert forall|k: int| t <= k <= n - 2 implies #[trigger] z.halfedges[keys[k].0] == chain_inner(
        vs,
        keys,
        t + 1,
        k,
    ) by {
        lemma_apart(g, keys, k, t - 1);
        lemma_apart(g, keys, t - 1, k);
        lemma_apart(g, keys, k, t);
        lemma_apart(g, keys, t, k);
        assert(s.halfedges[keys[k].0] == chain_inner(vs, keys, t, k));
    }
    assert forall|k: int| t <= k <= n - 2 implies #[trigger] z.halfedges[keys[k].1] == chain_outer(
        vs,
        keys,
        t + 1,
        k,
    ) by {
        lemma_apart(g, keys, k, t - 1);
        lemma_apart(g, keys, t - 1, k);
        lemma_apart(g, keys, k, t);
        lemma_apart(g, keys, t, k);
        assert(s.halfedges[keys[k].1] == chain_outer(vs, keys, t, k));
    }
    assert forall|h: HalfedgeId| g.halfedges.contains_key(h) implies #[trigger] z.halfedges.contains_key(
        h,
    ) && z.halfedges[h] == g.halfedges[h] by {
        assert(s.halfedges.contains_key(h));
        assert(!g.halfedges.contains_key(keys[t - 1].0));
        assert(!g.halfedges.contains_key(keys[t].0));
    }
    assert forall|h: HalfedgeId| #[trigger] z.halfedges.contains_key(h) implies g.halfedges.contains_key(
        h,
    ) || in_chain(keys, t + 1, h) by {
        assert(s.halfedges.contains_key(h));
        if !g.halfedges.contains_key(h) {
            let k = choose|k: int|
                t - 1 <= k <= keys.len() - 2 && (h == (#[trigger] keys[k]).0 || h == keys[k].1);
            assert(k != t - 1);
            assert(t <= k <= keys.len() - 2 && (h == keys[k].0 || h == keys[k].1));
        }
    }
    assert forall|j: int| t <= j <= n - 1 implies #[trigger] z.vertices.contains_key(vs[j]) by {
        assert(s.vertices.contains_key(vs[j]));
        assert(vs[j] != vs[t - 1]);
    }
    assert forall|j: int| t <= j <= n - 1 implies #[trigger] z.vertices[vs[j]] == (Vertex {
        halfedge: Some(
            if j == t {
                keys[t].0
            } else {
                keys[j - 1].1
            },
        ),
    }) by {
        assert(vs[j] != vs[t - 1]);
        if j != t {
            assert(vs[j] != vs[t]);
            assert(s.vertices[vs[j]] == (Vertex { halfedge: Some(keys[j - 1].1) }));
        }
    }
    assert forall|j: int| 0 <= j < t implies !z.vertices.contains_key(#[trigger] vs[j]) by {
        if j < t - 1 {
            assert(!s.vertices.contains_key(vs[j]));
            assert(vs[j] != vs[t]);
        }
    }
    assert forall|v: VertexId| g.vertices.contains_key(v) && !vs.contains(v) implies #[trigger] z.vertices.contains_key(
        v,
    ) && z.vertices[v] == g.vertices[v] by {
        assert(vs.contains(vs[t]) && vs.contains(vs[t - 1]));
        assert(s.vertices.contains_key(v));
    }
    assert forall|v: VertexId| #[trigger] z.vertices.contains_key(v) implies g.vertices.contains_key(
        v,
    ) by {
        if v != vs[t] {
            assert(s.vertices.contains_key(v));
        }
    }
}

/// Removing the last side that is left of the open chain.
pub proof fn lemma_unlink_last(
    g: Graph,
    e: Edit,
    vs: Seq<VertexId>,
    keys: Seq<(HalfedgeId, HalfedgeId)>,
)
    requires
        removal_ground(g, vs, keys),
        e.err is None,
        open_chain(g, e.g, vs, keys, vs.len() - 1),
    ensures
        e.unlink_edge(keys[vs.len() - 2].0).err is None,
        polygon_gone(g, e.unlink_edge(keys[vs.len() - 2].0).g, vs),
{
    let n = vs.len() as int;
    let t = n - 1;
    let s = e.g;
    let h0 = keys[n - 2].0;
    let o = keys[n - 2].1;
    lemma_apart(g, keys, n - 2, n - 2);
    assert(s.halfedges.contains_key(keys[n - 2].0) && s.halfedges.contains_key(keys[n - 2].1));
    assert(s.halfedges[keys[n - 2].0] == chain_inner(vs, keys, t, n - 2));
    assert(s.halfedges[keys[n - 2].1] == chain_outer(vs, keys, t, n - 2));
    assert(s.vertices.contains_key(vs[n - 1]) && s.vertices.contains_key(vs[n - 2]));
    assert(s.vertices[vs[n - 1]] == (Vertex { halfedge: Some(o) }));
    assert(s.vertices[vs[n - 2]] == (Vertex { halfedge: Some(h0) }));
    assert(vs[n - 1] != vs[n - 2]);
    let e1 = e.set_next(o, Some(h0));
    assert(e1.g.halfedges =~= s.halfedges);
    assert(e1 == e);
    let e2 = e1.set_next(h0, Some(o));
    assert(e2.g.halfedges =~= s.halfedges);
    assert(e2 == e);
    let e3 = e2.drop_edge(h0);
    assert(e3.g.halfedges =~= s.halfedges.remove(h0).remove(o));
    let e4 = e3.release_vertex(vs[n - 1], o, o);
    assert(e3.g.vertex_halfedge(vs[n - 1]) == Ok::<HalfedgeId, SMeshError>(o));
    assert(e4 == e3.drop_vertex(vs[n - 1]));
    let e5 = e4.release_vertex(vs[n - 2], h0, h0);
    assert(e4.g.vertices.contains_key(vs[n - 2]));
    assert(e4.g.vertex_halfedge(vs[n - 2]) == Ok::<HalfedgeId, SMeshError>(h0));
    assert(e5 == e4.drop_vertex(vs[n - 2]));
    assert(e.unlink_edge(h0) == e5);
    let z = e5.g;
    assert(z.faces == g.faces);
    assert(z.n_faces == g.n_faces);
    assert(e3.g.n_halfedges == s.n_halfedges - 2);
    assert(z.n_halfedges == g.n_halfedges);
    assert(e4.g.n_vertices == s.n_vertices - 1);
    assert(z.n_vertices == s.n_vertices - 2);
    assert(z.vertices =~= s.vertices.remove(vs[n - 1]).remove(vs[n - 2]));
    assert(z.halfedges =~= g.halfedges) by {
        assert forall|h: HalfedgeId| z.halfedges.contains_key(h) implies g.halfedges.contains_key(
            h,
        ) by {
            assert(s.halfedges.contains_key(h));
            if !g.halfedges.contains_key(h) {
                let k = choose|k: int|
                    t - 1 <= k <= keys.len() - 2 && (h == (#[trigger] keys[k]).0 || h == keys[k].1);
                assert(k == n - 2);
            }
        }
        assert forall|h: HalfedgeId| g.halfedges.contains_key(h) implies z.halfedges.contains_key(
            h,
        ) && z.halfedges[h] == g.halfedges[h] by {
            assert(s.halfedges.contains_key(h));
            assert(!g.halfedges.contains_key(keys[n - 2].0));
        }
    }
    assert forall|v: VertexId| #[trigger]
        z.vertices.contains_key(v) <==> g.vertices.contains_key(v) && !vs.contains(v) by {
        if z.vertices.contains_key(v) {
            assert(s.vertices.contains_key(v));
            if vs.contains(v) {
                let j = choose|j: int| 0 <= j < vs.len() && vs[j] == v;
                if j < n - 2 {
                    assert(!s.vertices.contains_key(vs[j]));
                }
            }
        }
        if g.vertices.contains_key(v) && !vs.contains(v) {
            assert(vs.contains(vs[n - 1]) && vs.contains(vs[n - 2]));
            assert(s.vertices.contains_key(v));
        }
    }
    assert forall|v: VertexId| #[trigger] z.vertices.contains_key(v) implies z.vertices[v]
        == g.vertices[v] by {
        assert(s.vertices.contains_key(v));
        assert(g.vertices.contains_key(v) && !vs.contains(v));
    }
}

/// The graph `a` is `g` with the sides of a polygon over `vs` linked up as
/// a loop, no face on either side.
pub open spec fn bare_loop(
    g: Graph,
    a: Graph,
    vs: Seq<VertexId>,
    keys: Seq<(HalfedgeId, HalfedgeId)>,
) -> bool {
    let n = vs.len() as int;
    &&& a.faces == g.faces
    &&& a.n_faces == g.n_faces
    &&& a.n_halfedges == g.n_halfedges + 2 * n
    &&& a.n_vertices == g.n_vertices
    &&& a.vertices.dom() == g.vertices.dom()
    &&& forall|j: int|
        0 <= j < n ==> #[trigger] a.vertices[vs[j]] == (Vertex {
            halfedge: Some(keys[prev_index(j, n)].1),
        })
    &&& forall|v: VertexId|
        g.vertices.contains_key(v) && !vs.contains(v) ==> #[trigger] a.vertices[v]
            == g.vertices[v]
    &&& forall|k: int|
        0 <= k < n ==> #[trigger] a.halfedges.contains_key(keys[k].0) && a.halfedges.contains_key(
            keys[k].1,
        )
    &&& forall|k: int|
        0 <= k < n ==> #[trigger] a.halfedges[keys[k].0] == (Halfedge {
            vertex: vs[next_index(k, n)],
            face: None,
            opposite: Some(keys[k].1),
            prev: Some(keys[prev_index(k, n)].0),
            next: Some(keys[next_index(k, n)].0),
        })
    &&& forall|k: int|
        0 <= k < n ==> #[trigger] a.halfedges[keys[k].1] == (Halfedge {
            vertex: vs[k],
            face: None,
            opposite: Some(keys[k].0),
            prev: Some(keys[next_index(k, n)].1),
            next: Some(keys[prev_index(k, n)].1),
        })
    &&& forall|h: HalfedgeId|
        g.halfedges.contains_key(h) ==> #[trigger] a.halfedges.contains_key(h) && a.halfedges[h]
            == g.halfedges[h]
    &&& forall|h: HalfedgeId| #[trigger]
        a.halfedges.contains_key(h) ==> g.halfedges.contains_key(h) || exists|k: int|
            0 <= k < n && (h == (#[trigger] keys[k]).0 || h == keys[k].1)
}

/// Taking the face off the loop of a face over a lone polygon and removing
/// its record leaves the bare loop.
pub proof fn lemma_face_cleared(
    g: Graph,
    after: Graph,
    vs: Seq<VertexId>,
    keys: Seq<(HalfedgeId, HalfedgeId)>,
    f: FaceId,
)
    requires
        removal_ground(g, vs, keys),
        !g.faces.contains_key(f),
        polygon_built(g, after, vs, keys, f),
    ensures
        Edit::of(after).clear_faces(polygon_loop(keys), 0).drop_face(f).err is None,
        bare_loop(
            g,
            Edit::of(after).clear_faces(polygon_loop(keys), 0).drop_face(f).g,
            vs,
            keys,
        ),
{
    let n = vs.len() as int;
    let c = polygon_loop(keys);
    assert forall|k: int| 0 <= k < c.len() implies after.halfedges.contains_key(#[trigger] c[k]) by {
        assert(after.halfedges.contains_key(keys[prev_index(k, n)].0));
    }
    lemma_clear_faces_pointwise(Edit::of(after), c, 0);
    let e1 = Edit::of(after).clear_faces(c, 0);
    let e2 = e1.drop_face(f);
    let a = e2.g;
    assert(a.faces =~= g.faces);
    assert(a.vertices.dom() =~= g.vertices.dom());
    assert forall|k: int| 0 <= k < n implies #[trigger] a.halfedges.contains_key(keys[k].0)
        && a.halfedges.contains_key(keys[k].1) by {
        assert(after.halfedges.contains_key(keys[k].0));
    }
    assert forall|k: int| 0 <= k < n implies #[trigger] a.halfedges[keys[k].0] == (Halfedge {
        vertex: vs[next_index(k, n)],
        face: None,
        opposite: Some(keys[k].1),
        prev: Some(keys[prev_index(k, n)].0),
        next: Some(keys[next_index(k, n)].0),
    }) by {
        let j = next_index(k, n);
        assert(prev_index(j, n) == k);
        assert(c[j] == keys[k].0);
        assert(e1.g.halfedges[c[j]] == (Halfedge { face: None, ..after.halfedges[c[j]] }));
        assert(after.halfedges[keys[k].0].vertex == vs[next_index(k, n)]);
    }
    assert forall|k: int| 0 <= k < n implies #[trigger] a.halfedges[keys[k].1] == (Halfedge {
        vertex: vs[k],
        face: None,
        opposite: Some(keys[k].0),
        prev: Some(keys[next_index(k, n)].1),
        next: Some(keys[prev_index(k, n)].1),
    }) by {
        assert(after.halfedges.contains_key(keys[k].0));
        assert(after.halfedges[keys[k].1].vertex == vs[k]);
        assert forall|j: int| 0 <= j < c.len() implies #[trigger] c[j] != keys[k].1 by {
            lemma_apart(g, keys, prev_index(j, n), k);
        }
    }
    assert forall|h: HalfedgeId| g.halfedges.contains_key(h) implies #[trigger] a.halfedges.contains_key(
        h,
    ) && a.halfedges[h] == g.halfedges[h] by {
        assert(after.halfedges.contains_key(h));
        assert forall|j: int| 0 <= j < c.len() implies #[trigger] c[j] != h by {
            assert(!g.halfedges.contains_key(keys[prev_index(j, n)].0));
        }
    }
    assert forall|h: HalfedgeId| #[trigger] a.halfedges.contains_key(h) implies g.halfedges.contains_key(
        h,
    ) || exists|k: int| 0 <= k < n && (h == (#[trigger] keys[k]).0 || h == keys[k].1) by {
        assert(after.halfedges.contains_key(h));
    }
    assert forall|j: int| 0 <= j < n implies #[trigger] a.vertices[vs[j]] == (Vertex {
        halfedge: Some(keys[prev_index(j, n)].1),
    }) by {
        assert(after.vertices[vs[j]] == (Vertex { halfedge: Some(keys[prev_index(j, n)].1) }));
    }
}

/// Removing the last side of the bare loop opens it into a chain.
pub proof fn lemma_unlink_first(
    g: Graph,
    e: Edit,
    vs: Seq<VertexId>,
    keys: Seq<(HalfedgeId, HalfedgeId)>,
)
    requires
        removal_ground(g, vs, keys),
        e.err is None,
        bare_loop(g, e.g, vs, keys),
    ensures
        e.unlink_edge(keys[vs.len() - 1].0).err is None,
        open_chain(g, e.unlink_edge(keys[vs.len() - 1].0).g, vs, keys, 1),
{
    let n = vs.len() as int;
    let s = e.g;
    let h0 = keys[n - 1].0;
    let o = keys[n - 1].1;
    let hp = keys[n - 2].0;
    let op = keys[n - 2].1;
    let hf = keys[0].0;
    let of = keys[0].1;
    lemma_apart(g, keys, n - 1, n - 1);
    lemma_apart(g, keys, n - 1, n - 2);
    lemma_apart(g, keys, n - 2, n - 1);
    lemma_apart(g, keys, n - 1, 0);
    lemma_apart(g, keys, 0, n - 1);
    lemma_apart(g, keys, n - 2, 0);
    lemma_apart(g, keys, 0, n - 2);
    lemma_apart(g, keys, 0, 0);
    lemma_apart(g, keys, n - 2, n - 2);
    assert(s.halfedges.contains_key(keys[n - 1].0) && s.halfedges.contains_key(keys[n - 1].1));
    assert(s.halfedges.contains_key(keys[n - 2].0) && s.halfedges.contains_key(keys[n - 2].1));
    assert(s.halfedges.contains_key(keys[0].0) && s.halfedges.contains_key(keys[0].1));
    assert(s.halfedges[keys[n - 1].0].next == Some(hf));
    assert(s.halfedges[keys[n - 1].0].prev == Some(hp));
    assert(s.halfedges[keys[n - 1].0].vertex == vs[0]);
    assert(s.halfedges[keys[n - 1].1].next == Some(op));
    assert(s.halfedges[keys[n - 1].1].prev == Some(of));
    assert(s.halfedges[keys[n - 1].1].vertex == vs[n - 1]);
    assert(s.vertices.contains_key(vs[0]) && s.vertices.contains_key(vs[n - 1])) by {
        assert(g.vertices.contains_key(vs[0]) && g.vertices.contains_key(vs[n - 1]));
    }
    assert(s.vertices[vs[0]] == (Vertex { halfedge: Some(o) }));
    assert(s.vertices[vs[n - 1]] == (Vertex { halfedge: Some(op) }));
    assert(vs[0] != vs[n - 1]);
    let e1 = e.set_next(hp, Some(op));
    assert(e1.err is None);
    let e2 = e1.set_next(of, Some(hf));
    assert(e2.err is None);
    let e3 = e2.drop_edge(h0);
    assert(e2.g.halfedges[h0].opposite == Some(o));
    let e4 = e3.release_vertex(vs[0], o, hf);
    assert(e3.g.vertex_halfedge(vs[0]) == Ok::<HalfedgeId, SMeshError>(o));
    assert(e4 == e3.set_vertex_halfedge(vs[0], Some(hf)));
    let e5 = e4.release_vertex(vs[n - 1], h0, op);
    assert(e4.g.vertex_halfedge(vs[n - 1]) == Ok::<HalfedgeId, SMeshError>(op));
    assert(e5 == e4);
    assert(e.unlink_edge(h0) == e5);
    let z = e5.g;
    assert(z.faces == g.faces);
    assert(e3.g.n_halfedges == s.n_halfedges - 2);
    assert(z.n_vertices == g.n_vertices);
    assert(z.vertices =~= s.vertices.insert(vs[0], Vertex { halfedge: Some(hf) }));
    assert(z.n_halfedges == g.n_halfedges + 2 * (n - 1));
    assert(z.n_faces == g.n_faces);
    assert(z.halfedges.dom() =~= s.halfedges.dom().remove(h0).remove(o));
    lemma_first_halfedges(g, s, z, vs, keys);
    assert forall|j: int| 0 <= j <= n - 1 implies #[trigger] z.vertices.contains_key(vs[j]) by {
        assert(g.vertices.contains_key(vs[j]));
    }
    assert forall|j: int| 0 <= j <= n - 1 implies #[trigger] z.vertices[vs[j]] == (Vertex {
        halfedge: Some(
            if j == 0 {
                keys[0].0
            } else {
                keys[j - 1].1
            },
        ),
    }) by {
        if j != 0 {
            assert(vs[j] != vs[0]);
            assert(s.vertices[vs[j]] == (Vertex { halfedge: Some(keys[prev_index(j, n)].1) }));
        }
    }
    assert forall|v: VertexId| g.vertices.contains_key(v) && !vs.contains(v) implies #[trigger] z.vertices.contains_key(
        v,
    ) && z.vertices[v] == g.vertices[v] by {
        assert(vs.contains(vs[0]));
        assert(s.vertices.contains_key(v));
        assert(s.vertices[v] == g.vertices[v]);
    }
    assert forall|v: VertexId| #[trigger] z.vertices.contains_key(v) implies g.vertices.contains_key(
        v,
    ) by {
        if v != vs[0] {
            assert(s.vertices.contains_key(v));
        } else {
            assert(g.vertices.contains_key(vs[0]));
        }
    }
}

/// The halfedges after the last side of the bare loop is removed.
proof fn lemma_first_halfedges(
    g: Graph,
    s: Graph,
    z: Graph,
    vs: Seq<VertexId>,
    keys: Seq<(HalfedgeId, HalfedgeId)>,
)
    requires
        removal_ground(g, vs, keys),
        bare_loop(g, s, vs, keys),
        z.halfedges.dom() == s.halfedges.dom().remove(keys[vs.len() - 1].0).remove(
            keys[vs.len() - 1].1,
        ),
        z.halfedges[keys[vs.len() - 2].0] == (Halfedge {
            next: Some(keys[vs.len() - 2].1),
            ..s.halfedges[keys[vs.len() - 2].0]
        }),
        z.halfedges[keys[vs.len() - 2].1] == (Halfedge {
            prev: Some(keys[vs.len() - 2].0),
            ..s.halfedges[keys[vs.len() - 2].1]
        }),
        z.halfedges[keys[0].1] == (Halfedge { next: Some(keys[0].0), ..s.halfedges[keys[0].1] }),
        z.halfedges[keys[0].0] == (Halfedge { prev: Some(keys[0].1), ..s.halfedges[keys[0].0] }),
        forall|h: HalfedgeId|
            s.halfedges.contains_key(h) && h != keys[vs.len() - 2].0 && h != keys[vs.len() - 2].1
                && h != keys[0].0 && h != keys[0].1 && h != keys[vs.len() - 1].0 && h != keys[vs.len()
                - 1].1 ==> #[trigger] z.halfedges[h] == s.halfedges[h],
    ensures
        forall|k: int|
            0 <= k <= vs.len() - 2 ==> #[trigger] z.halfedges.contains_key(keys[k].0)
                && z.halfedges.contains_key(keys[k].1),
        forall|k: int|
            0 <= k <= vs.len() - 2 ==> #[trigger] z.halfedges[keys[k].0] == chain_inner(
                vs,
                keys,
                1,
                k,
            ),
        forall|k: int|
            0 <= k <= vs.len() - 2 ==> #[trigger] z.halfedges[keys[k].1] == chain_outer(
                vs,
                keys,
                1,
                k,
            ),
        forall|h: HalfedgeId|
            g.halfedges.contains_key(h) ==> #[trigger] z.halfedges.contains_key(h)
                && z.halfedges[h] == g.halfedges[h],
        forall|h: HalfedgeId| #[trigger]
            z.halfedges.contains_key(h) ==> g.halfedges.contains_key(h) || in_chain(keys, 1, h),
{
    let n = vs.len() as int;
    assert forall|k: int| 0 <= k <= n - 2 implies #[trigger] z.halfedges.contains_key(keys[k].0)
        && z.halfedges.contains_key(keys[k].1) by {
        lemma_apart(g, keys, k, n - 1);
        lemma_apart(g, keys, n - 1, k);
        assert(s.halfedges.contains_key(keys[k].0));
    }
    assert forall|k: int| 0 <= k <= n - 2 implies #[trigger] z.halfedges[keys[k].0] == chain_inner(
        vs,
        keys,
        1,
        k,
    ) by {
        lemma_apart(g, keys, k, n - 1);
        lemma_apart(g, keys, n - 1, k);
        lemma_apart(g, keys, k, n - 2);
        lemma_apart(g, keys, n - 2, k);
        lemma_apart(g, keys, k, 0);
        lemma_apart(g, keys, 0, k);
        assert(s.halfedges.contains_key(keys[k].0));
        assert(s.halfedges[keys[k].0].vertex == vs[next_index(k, n)]);
    }
    assert forall|k: int| 0 <= k <= n - 2 implies #[trigger] z.halfedges[keys[k].1] == chain_outer(
        vs,
        keys,
        1,
        k,
    ) by {
        lemma_apart(g, keys, k, n - 1);
        lemma_apart(g, keys, n - 1, k);
        lemma_apart(g, keys, k, n - 2);
        lemma_apart(g, keys, n - 2, k);
        lemma_apart(g, keys, k, 0);
        lemma_apart(g, keys, 0, k);
        assert(s.halfedges.contains_key(keys[k].0));
        assert(s.halfedges[keys[k].1].vertex == vs[k]);
    }
    assert forall|h: HalfedgeId| g.halfedges.contains_key(h) implies #[trigger] z.halfedges.contains_key(
        h,
    ) && z.halfedges[h] == g.halfedges[h] by {
        assert(s.halfedges.contains_key(h));
        assert(!g.halfedges.contains_key(keys[n - 1].0));
        assert(!g.halfedges.contains_key(keys[n - 2].0));
        assert(!g.halfedges.contains_key(keys[0].0));
    }
    assert forall|h: HalfedgeId| #[trigger] z.halfedges.contains_key(h) implies g.halfedges.contains_key(
        h,
    ) || in_chain(keys, 1, h) by {
        assert(s.halfedges.contains_key(h));
        if !g.halfedges.contains_key(h) {
            let k = choose|k: int| 0 <= k < n && (h == (#[trigger] keys[k]).0 || h == keys[k].1);
            assert(k != n - 1);
            assert(0 <= k <= keys.len() - 2 && (h == keys[k].0 || h == keys[k].1));
        }
    }
}

/// Removing the sides of the open chain one after the other leaves nothing
/// of the polygon.
pub proof fn lemma_unlink_rest(
    g: Graph,
    e: Edit,
    vs: Seq<VertexId>,
    keys: Seq<(HalfedgeId, HalfedgeId)>,
    t: int,
)
    requires
        removal_ground(g, vs, keys),
        1 <= t <= vs.len() - 1,
        e.err is None,
        open_chain(g, e.g, vs, keys, t),
    ensures
        e.unlink_edges(polygon_loop(keys), t).err is None,
        polygon_gone(g, e.unlink_edges(polygon_loop(keys), t).g, vs),
    decreases vs.len() - t,
{
    let n = vs.len() as int;
    let c = polygon_loop(keys);
    assert(c[t] == keys[t - 1].0);
    if t < n - 1 {
        lemma_unlink_step(g, e, vs, keys, t);
        lemma_unlink_rest(g, e.unlink_edge(keys[t - 1].0), vs, keys, t + 1);
    } else {
        lemma_unlink_last(g, e, vs, keys);
        let last = e.unlink_edge(keys[n - 2].0);
        assert(last.unlink_edges(c, n) == last);
    }
}

/// Once the polygon is gone, the adjustment of its corners changes nothing.
pub proof fn lemma_gone_adjust(g: Graph, e: Edit, vs: Seq<VertexId>, k: int)
    requires
        e.err is None,
        0 <= k <= vs.len(),
        polygon_gone(g, e.g, vs),
    ensures
        e.try_adjust_all(vs, k) == e,
    decreases vs.len() - k,
{
    if k < vs.len() {
        assert(vs.contains(vs[k]));
        assert(!e.g.vertices.contains_key(vs[k]));
        assert(e.g.vertex_halfedge(vs[k]) is Err);
        assert(e.try_adjust(vs[k]) == e);
        lemma_gone_adjust(g, e, vs, k + 1);
    }
}

/// Removing a face that was built over a lone polygon removes the polygon.
pub proof fn lemma_delete_lone_face(
    g: Graph,
    after: Graph,
    vs: Seq<VertexId>,
    keys: Seq<(HalfedgeId, HalfedgeId)>,
    f: FaceId,
)
    requires
        removal_ground(g, vs, keys),
        !g.faces.contains_key(f),
        polygon_built(g, after, vs, keys, f),
    ensures
        Edit::of(after).delete_face(f).err is None,
        polygon_gone(g, Edit::of(after).delete_face(f).g, vs),
{
    let n = vs.len() as int;
    let c = polygon_loop(keys);
    assert forall|k: int, l: int| 0 <= k < l < keys.len() implies (#[trigger] keys[k]).0 != (
    #[trigger] keys[l]).0 by {}
    lemma_polygon_rings(g, after, vs, keys, f);
    assert(after.face_halfedges(f) == c);
    assert forall|k: int| 0 <= k < c.len() implies after.halfedges.contains_key(#[trigger] c[k]) by {
        assert(after.halfedges.contains_key(keys[prev_index(k, n)].0));
    }
    lemma_corners_readable(after, c, 0);
    assert forall|k: int| 0 <= k < c.len() implies after.opposite_is_boundary(#[trigger] c[k]) by {
        let p = prev_index(k, n);
        assert(after.halfedges.contains_key(keys[p].0));
        assert(after.halfedges[keys[p].0].opposite == Some(keys[p].1));
        assert(after.halfedges[keys[p].1].face is None);
    }
    lemma_all_lone(after, c, 0, Seq::empty());
    assert(Seq::<HalfedgeId>::empty() + c.skip(0) =~= c);
    assert(after.targets(c) == vs);
    lemma_face_cleared(g, after, vs, keys, f);
    let e0 = Edit::of(after);
    let e1 = e0.check(after.corners_readable(c, 0));
    assert(e1 == e0);
    let e2 = e1.clear_faces(c, 0).drop_face(f);
    assert(c[0] == keys[n - 1].0);
    lemma_unlink_first(g, e2, vs, keys);
    let e3 = e2.unlink_edge(keys[n - 1].0);
    lemma_unlink_rest(g, e3, vs, keys, 1);
    let e4 = e2.unlink_edges(c, 0);
    assert(e4 == e3.unlink_edges(c, 1));
    lemma_gone_adjust(g, e4, vs, 0);
    assert(Edit::of(after).delete_face(f) == e4.try_adjust_all(vs, 0));
}

} // verus!
