use vstd::prelude::*;
use crate::edit::Edit;
use crate::error::SMeshError;
use crate::face_plan::{face_sides, link_corner, link_corners, next_index, LinkState};
use crate::graph::Graph;
use crate::mesh_elements::{FaceId, HalfedgeId, VertexId};
use crate::face_plan::{fresh_sides, FacePlan};
use crate::polygon::{
    bare_inner, bare_outer, lemma_create_all_sides, lemma_loop_walk, lemma_targets_of_live, no_sides,
    polygon_loop, prev_index, sides_made,
};

verus! {

impl Graph {
    /// The previous halfedge that the halfedge `h` names, if it is live and
    /// names one, is live.
    pub open spec fn prev_live_at(self, h: HalfedgeId) -> bool {
        self.halfedges.contains_key(h) ==> (match self.halfedges[h].prev {
            Some(p) => self.halfedges.contains_key(p),
            None => true,
        })
    }

    /// The outgoing halfedge that the vertex `v` stores, if it is live and
    /// stores one, is live.
    pub open spec fn spoke_live_at(self, v: VertexId) -> bool {
        self.vertices.contains_key(v) ==> (match self.vertices[v].halfedge {
            Some(h) => self.halfedges.contains_key(h),
            None => true,
        })
    }

    /// No vertex stores and no halfedge names as its previous a halfedge
    /// that is not live.
    pub open spec fn no_dangling(self) -> bool {
        &&& forall|h: HalfedgeId| #[trigger] self.prev_live_at(h)
        &&& forall|v: VertexId| #[trigger] self.spoke_live_at(v)
    }
}

/// Whether `h` is the inner halfedge of one of the sides.
pub open spec fn is_inner(keys: Seq<(HalfedgeId, HalfedgeId)>, h: HalfedgeId) -> bool {
    exists|k: int| 0 <= k < keys.len() && (#[trigger] keys[k]).0 == h
}

/// The link that chains the inner halfedge of the side `k` to that of the
/// side after it.
pub open spec fn inner_link(keys: Seq<(HalfedgeId, HalfedgeId)>, k: int) -> (HalfedgeId, HalfedgeId) {
    (keys[k].0, keys[next_index(k, keys.len() as int)].0)
}

/// What is known of the noted links once the corners after the sides before
/// the `i`-th are passed: a link that starts at an inner halfedge is the
/// link of that halfedge, and the link of every side before the `i`-th is
/// noted.
pub open spec fn links_noted(
    cache: Seq<(HalfedgeId, HalfedgeId)>,
    keys: Seq<(HalfedgeId, HalfedgeId)>,
    i: int,
) -> bool {
    &&& forall|j: int|
        0 <= j < cache.len() && is_inner(keys, (#[trigger] cache[j]).0) ==> exists|k: int|
            0 <= k < i && cache[j] == #[trigger] inner_link(keys, k)
    &&& forall|k: int| 0 <= k < i ==> cache.contains(#[trigger] inner_link(keys, k))
}

/// The keys of the sides are apart, and none is live in `g`.
pub open spec fn keys_fresh(g: Graph, keys: Seq<(HalfedgeId, HalfedgeId)>) -> bool {
    &&& forall|k: int|
        0 <= k < keys.len() ==> !g.halfedges.contains_key((#[trigger] keys[k]).0)
            && !g.halfedges.contains_key(keys[k].1) && keys[k].0 != keys[k].1
    &&& forall|k: int, l: int|
        0 <= k < l < keys.len() ==> (#[trigger] keys[k]).0 != (#[trigger] keys[l]).0 && keys[k].0
            != keys[l].1 && keys[k].1 != keys[l].0 && keys[k].1 != keys[l].1
}

/// The state `st` while the corners of a face all of whose sides are new are
/// passed, in a graph `g` to which the sides were added as bare halfedges.
pub open spec fn corners_passed(
    g: Graph,
    st: LinkState,
    vs: Seq<VertexId>,
    keys: Seq<(HalfedgeId, HalfedgeId)>,
    i: int,
) -> bool {
    let g2 = st.edit.g;
    let n = vs.len() as int;
    &&& st.edit.err is None
    &&& g2.vertices.dom() == g.vertices.dom()
    &&& forall|k: int|
        0 <= k < n ==> #[trigger] g2.halfedges.contains_key(keys[k].0)
            && g2.halfedges.contains_key(keys[k].1)
    &&& forall|k: int|
        0 <= k < n ==> (#[trigger] g2.halfedges[keys[k].0]).opposite == Some(keys[k].1)
            && g2.halfedges[keys[k].0].vertex == vs[next_index(k, n)]
            && g2.halfedges[keys[k].0].prev is None && g2.halfedges[keys[k].0].next is None
    &&& forall|k: int|
        0 <= k < n ==> (#[trigger] g2.halfedges[keys[k].1]).opposite == Some(keys[k].0)
            && g2.halfedges[keys[k].1].prev is None && g2.halfedges[keys[k].1].next is None
    &&& forall|h: HalfedgeId|
        g.halfedges.contains_key(h) ==> #[trigger] g2.halfedges.contains_key(h) && g2.halfedges[h]
            == g.halfedges[h]
    &&& forall|v: VertexId|
        g.vertices.contains_key(v) ==> #[trigger] g2.vertices[v] == g.vertices[v] || exists|k: int|
            0 <= k < n && g2.vertices[v].halfedge == Some((#[trigger] keys[k]).1)
    &&& links_noted(st.cache, keys, i)
}

/// Two keys of different sides differ, and so do the two of one side.
proof fn lemma_fresh_apart(g: Graph, keys: Seq<(HalfedgeId, HalfedgeId)>, a: int, b: int)
    requires
        keys_fresh(g, keys),
        0 <= a < keys.len(),
        0 <= b < keys.len(),
    ensures
        keys[a].0 != keys[b].1,
        a != b ==> keys[a].0 != keys[b].0 && keys[a].1 != keys[b].1,
{
    if a < b {
        assert(keys[a].0 != keys[b].0 && keys[a].0 != keys[b].1 && keys[a].1 != keys[b].0);
    } else if b < a {
        assert(keys[b].0 != keys[a].0 && keys[b].0 != keys[a].1 && keys[b].1 != keys[a].0);
    } else {
        assert(keys[a].0 != keys[a].1);
    }
}

/// An outer halfedge is no inner one, and neither is a halfedge of `g`.
proof fn lemma_not_inner(g: Graph, keys: Seq<(HalfedgeId, HalfedgeId)>, h: HalfedgeId)
    requires
        keys_fresh(g, keys),
        g.halfedges.contains_key(h) || exists|k: int|
            0 <= k < keys.len() && (#[trigger] keys[k]).1 == h,
    ensures
        !is_inner(keys, h),
{
    if is_inner(keys, h) {
        let a = choose|a: int| 0 <= a < keys.len() && (#[trigger] keys[a]).0 == h;
        if g.halfedges.contains_key(h) {
            assert(!g.halfedges.contains_key(keys[a].0));
        } else {
            let b = choose|b: int| 0 <= b < keys.len() && (#[trigger] keys[b]).1 == h;
            lemma_fresh_apart(g, keys, a, b);
        }
    }
}

/// Passing one more corner, where that succeeds.
pub proof fn lemma_pass_corner(
    g: Graph,
    st: LinkState,
    vs: Seq<VertexId>,
    keys: Seq<(HalfedgeId, HalfedgeId)>,
    f: FaceId,
    i: int,
)
    requires
        vs.len() >= 3,
        keys.len() == vs.len(),
        keys_fresh(g, keys),
        g.no_dangling(),
        0 <= i < vs.len(),
        corners_passed(g, st, vs, keys, i),
        link_corner(st, vs, face_sides(no_sides(vs.len()), keys), f, i).edit.err is None,
    ensures
        corners_passed(
            g,
            link_corner(st, vs, face_sides(no_sides(vs.len()), keys), f, i),
            vs,
            keys,
            i + 1,
        ),
{
    let n = vs.len() as int;
    let sides = face_sides(no_sides(vs.len()), keys);
    let ii = next_index(i, n);
    let v = vs[ii];
    let g2 = st.edit.g;
    let hi = keys[i].0;
    let hn = keys[ii].0;
    let oi = keys[i].1;
    let on = keys[ii].1;
    assert(sides[i] == (hi, true));
    assert(sides[ii] == (hn, true));
    assert(g2.halfedges.contains_key(keys[i].0) && g2.halfedges.contains_key(keys[ii].0));
    assert(g2.halfedges[keys[i].0].opposite == Some(oi));
    assert(g2.halfedges[keys[ii].0].opposite == Some(on));
    assert(g2.he_opposite(hn) == Ok::<HalfedgeId, SMeshError>(on));
    assert(g2.he_opposite(hi) == Ok::<HalfedgeId, SMeshError>(oi));
    let after = link_corner(st, vs, sides, f, i);
    lemma_fresh_apart(g, keys, i, ii);
    lemma_fresh_apart(g, keys, ii, i);
    lemma_fresh_apart(g, keys, i, i);
    lemma_fresh_apart(g, keys, ii, ii);
    assert(!is_inner(keys, on)) by {
        lemma_not_inner(g, keys, on);
    }
    assert(!is_inner(keys, oi)) by {
        lemma_not_inner(g, keys, oi);
    }
    match g2.vertex_halfedge(v) {
        Ok(bn) => {
            // the stored halfedge is one of `g`: an outer one has no
            // previous halfedge yet
            assert(g2.vertices.contains_key(v));
            assert(g.vertices.contains_key(v));
            assert(g2.he_prev(bn) is Ok);
            if g2.vertices[v] != g.vertices[v] {
                let k = choose|k: int|
                    0 <= k < n && g2.vertices[v].halfedge == Some((#[trigger] keys[k]).1);
                assert(g2.halfedges.contains_key(keys[k].0));
                assert(g2.halfedges[keys[k].1].prev is None);
                assert(false);
            }
            assert(g.spoke_live_at(v));
            assert(g.halfedges.contains_key(bn));
            assert(g2.halfedges[bn] == g.halfedges[bn]);
            assert(g.prev_live_at(bn));
            let bp = g2.he_prev(bn)->Ok_0;
            assert(g.halfedges.contains_key(bp));
            lemma_not_inner(g, keys, bp);
            let st1 = st.link(bp, oi).link(on, bn).link(hi, hn);
            assert(after == st1.set_face(hi, Some(f)));
            assert(st1.cache =~= (st.cache + seq![(bp, oi), (on, bn)]).push(inner_link(keys, i)));
            lemma_links_extended(st.cache, st1.cache, keys, i, seq![(bp, oi), (on, bn)]);
            assert(after.cache == st1.cache);
            assert(after.edit.g.vertices == g2.vertices);
            assert forall|w: VertexId| g.vertices.contains_key(w) implies #[trigger] after.edit.g.vertices[w]
                == g.vertices[w] || exists|k: int|
                0 <= k < n && after.edit.g.vertices[w].halfedge == Some((#[trigger] keys[k]).1) by {
                if g2.vertices[w] != g.vertices[w] {
                    let k = choose|k: int|
                        0 <= k < n && g2.vertices[w].halfedge == Some((#[trigger] keys[k]).1);
                    assert(after.edit.g.vertices[w].halfedge == Some(keys[k].1));
                }
            }
        },
        Err(_) => {
            let st0 = st.set_vertex_halfedge(v, Some(oi));
            let st1 = st0.link(on, oi).link(hi, hn);
            assert(after == st1.set_face(hi, Some(f)));
            assert(st0.edit.err is None);
            assert(g2.vertices.contains_key(v));
            assert(st1.cache =~= (st.cache + seq![(on, oi)]).push(inner_link(keys, i)));
            lemma_links_extended(st.cache, st1.cache, keys, i, seq![(on, oi)]);
            assert(after.cache == st1.cache);
            assert(after.edit.g.vertices.dom() =~= g.vertices.dom());
            assert forall|w: VertexId| g.vertices.contains_key(w) implies #[trigger] after.edit.g.vertices[w]
                == g.vertices[w] || exists|k: int|
                0 <= k < n && after.edit.g.vertices[w].halfedge == Some((#[trigger] keys[k]).1) by {
                if w == v {
                    assert(after.edit.g.vertices[w].halfedge == Some(keys[i].1));
                } else {
                    assert(after.edit.g.vertices[w] == g2.vertices[w]);
                    if g2.vertices[w] != g.vertices[w] {
                        let k = choose|k: int|
                            0 <= k < n && g2.vertices[w].halfedge == Some((#[trigger] keys[k]).1);
                        assert(after.edit.g.vertices[w].halfedge == Some(keys[k].1));
                    }
                }
            }
        },
    }
    let g3 = after.edit.g;
    assert(after.edit.err is None);
    assert(links_noted(after.cache, keys, i + 1));
    assert(g3.vertices.dom() =~= g.vertices.dom());
    assert forall|k: int| 0 <= k < n implies #[trigger] g3.halfedges.contains_key(keys[k].0)
        && g3.halfedges.contains_key(keys[k].1) by {
        assert(g2.halfedges.contains_key(keys[k].0));
    }
    assert forall|k: int| 0 <= k < n implies (#[trigger] g3.halfedges[keys[k].0]).opposite == Some(
        keys[k].1,
    ) && g3.halfedges[keys[k].0].vertex == vs[next_index(k, n)] && g3.halfedges[keys[k].0].prev
        is None && g3.halfedges[keys[k].0].next is None by {
        assert(g2.halfedges[keys[k].0].opposite == Some(keys[k].1));
    }
    assert forall|k: int| 0 <= k < n implies (#[trigger] g3.halfedges[keys[k].1]).opposite == Some(
        keys[k].0,
    ) && g3.halfedges[keys[k].1].prev is None && g3.halfedges[keys[k].1].next is None by {
        lemma_fresh_apart(g, keys, i, k);
        assert(g2.halfedges[keys[k].1].opposite == Some(keys[k].0));
    }
    assert forall|h: HalfedgeId| g.halfedges.contains_key(h) implies #[trigger] g3.halfedges.contains_key(
        h,
    ) && g3.halfedges[h] == g.halfedges[h] by {
        assert(g2.halfedges.contains_key(h));
        assert(!g.halfedges.contains_key(keys[i].0));
    }
}

/// Noting links that do not start at an inner halfedge, and then the link of
/// the side `i`, keeps `links_noted`.
proof fn lemma_links_extended(
    before: Seq<(HalfedgeId, HalfedgeId)>,
    after: Seq<(HalfedgeId, HalfedgeId)>,
    keys: Seq<(HalfedgeId, HalfedgeId)>,
    i: int,
    others: Seq<(HalfedgeId, HalfedgeId)>,
)
    requires
        0 <= i < keys.len(),
        links_noted(before, keys, i),
        after == (before + others).push(inner_link(keys, i)),
        forall|j: int| 0 <= j < others.len() ==> !is_inner(keys, (#[trigger] others[j]).0),
    ensures
        links_noted(after, keys, i + 1),
{
    assert forall|j: int| 0 <= j < after.len() && is_inner(keys, (#[trigger] after[j]).0) implies exists|
        k: int,
    | 0 <= k < i + 1 && after[j] == #[trigger] inner_link(keys, k) by {
        if j < before.len() {
            assert(after[j] == before[j]);
            let k = choose|k: int| 0 <= k < i && before[j] == #[trigger] inner_link(keys, k);
            assert(0 <= k < i + 1 && after[j] == inner_link(keys, k));
        } else if j < before.len() + others.len() {
            assert(after[j] == others[j - before.len()]);
        } else {
            assert(after[j] == inner_link(keys, i));
        }
    }
    assert forall|k: int| 0 <= k < i + 1 implies after.contains(#[trigger] inner_link(keys, k)) by {
        if k < i {
            let j = choose|j: int| 0 <= j < before.len() && before[j] == inner_link(keys, k);
            assert(after[j] == inner_link(keys, k));
        } else {
            assert(after[after.len() - 1] == inner_link(keys, i));
        }
    }
}

/// Passing the corners from the `i`-th on, where that succeeds.
pub proof fn lemma_pass_corners(
    g: Graph,
    st: LinkState,
    vs: Seq<VertexId>,
    keys: Seq<(HalfedgeId, HalfedgeId)>,
    f: FaceId,
    i: int,
)
    requires
        vs.len() >= 3,
        keys.len() == vs.len(),
        keys_fresh(g, keys),
        g.no_dangling(),
        0 <= i <= vs.len(),
        corners_passed(g, st, vs, keys, i),
        link_corners(st, vs, face_sides(no_sides(vs.len()), keys), f, i).edit.err is None,
    ensures
        corners_passed(
            g,
            link_corners(st, vs, face_sides(no_sides(vs.len()), keys), f, i),
            vs,
            keys,
            vs.len() as int,
        ),
    decreases vs.len() - i,
{
    if i < vs.len() {
        let linked = link_corner(st, vs, face_sides(no_sides(vs.len()), keys), f, i);
        if linked.edit.err is None {
            lemma_pass_corner(g, st, vs, keys, f, i);
            lemma_pass_corners(g, linked, vs, keys, f, i + 1);
        }
    }
}

/// Where every noted link that starts at `h` leads to `b`, and one does, `b`
/// follows `h` once the links are made.
pub proof fn lemma_next_after_links(
    e: Edit,
    cache: Seq<(HalfedgeId, HalfedgeId)>,
    k: int,
    h: HalfedgeId,
    b: HalfedgeId,
)
    requires
        e.err is None,
        0 <= k <= cache.len(),
        e.apply_links(cache, k).err is None,
        e.g.halfedges.contains_key(h),
        forall|j: int| k <= j < cache.len() && (#[trigger] cache[j]).0 == h ==> cache[j].1 == b,
    ensures
        e.apply_links(cache, k).g.halfedges.contains_key(h),
        e.apply_links(cache, k).g.halfedges[h].vertex == e.g.halfedges[h].vertex,
        e.apply_links(cache, k).g.faces == e.g.faces,
        e.apply_links(cache, k).g.n_halfedges == e.g.n_halfedges,
        (exists|j: int| k <= j < cache.len() && (#[trigger] cache[j]).0 == h) ==> e.apply_links(
            cache,
            k,
        ).g.halfedges[h].next == Some(b),
        !(exists|j: int| k <= j < cache.len() && (#[trigger] cache[j]).0 == h) ==> e.apply_links(
            cache,
            k,
        ).g.halfedges[h].next == e.g.halfedges[h].next,
    decreases cache.len() - k,
{
    if k < cache.len() {
        let linked = e.set_next(cache[k].0, Some(cache[k].1));
        assert(linked.err is None);
        assert(linked.g.halfedges.contains_key(h));
        lemma_next_after_links(linked, cache, k + 1, h, b);
        if cache[k].0 == h {
            assert(cache[k].1 == b);
            assert(linked.g.halfedges[h].next == Some(b));
        } else {
            assert(linked.g.halfedges[h].next == e.g.halfedges[h].next);
            if exists|j: int| k <= j < cache.len() && (#[trigger] cache[j]).0 == h {
                let j = choose|j: int| k <= j < cache.len() && (#[trigger] cache[j]).0 == h;
                assert(k + 1 <= j < cache.len() && cache[j].0 == h);
            }
        }
    }
}

/// The adjustment of outgoing halfedges changes no halfedge and no face.
pub proof fn lemma_adjust_all_keeps_halfedges(e: Edit, vs: Seq<VertexId>, k: int)
    ensures
        e.adjust_all(vs, k).g.halfedges == e.g.halfedges,
        e.adjust_all(vs, k).g.faces == e.g.faces,
        e.adjust_all(vs, k).g.n_halfedges == e.g.n_halfedges,
    decreases vs.len() - k,
{
    if 0 <= k < vs.len() {
        let adjusted = e.adjust_outgoing_halfedge(vs[k]);
        if adjusted.err is None {
            lemma_adjust_all_keeps_halfedges(adjusted, vs, k + 1);
        }
    }
}

/// Linking one corner changes no face record.
pub proof fn lemma_link_corner_keeps_faces(
    st: LinkState,
    vs: Seq<VertexId>,
    sides: Seq<(HalfedgeId, bool)>,
    f: FaceId,
    i: int,
)
    ensures
        link_corner(st, vs, sides, f, i).edit.g.faces == st.edit.g.faces,
        link_corner(st, vs, sides, f, i).edit.g.n_halfedges == st.edit.g.n_halfedges,
{
    crate::counts::lemma_link_corner_keeps_counts(st, vs, sides, f, i);
    let ii = next_index(i, vs.len() as int);
    let v = vs[ii];
    let g = st.edit.g;
    let inner_prev = sides[i].0;
    let inner_next = sides[ii].0;
    match g.he_opposite(inner_prev) {
        Ok(outer_next) => {
            let a = st.edit.set_vertex_halfedge(v, Some(outer_next));
            assert(a.g.faces == g.faces);
            assert(a.set_face(inner_prev, Some(f)).g.faces == g.faces);
        },
        Err(_) => {},
    }
    match g.he_next(inner_prev) {
        Ok(boundary_next) => {
            let a = st.edit.set_vertex_halfedge(v, Some(boundary_next));
            assert(a.g.faces == g.faces);
            assert(a.set_face(inner_prev, Some(f)).g.faces == g.faces);
        },
        Err(_) => {},
    }
    assert(st.edit.set_face(inner_prev, Some(f)).g.faces == g.faces);
    assert forall|e: SMeshError| (#[trigger] st.edit.fail(e)).set_face(inner_prev, Some(f)).g.faces
        == g.faces by {}
}

/// Linking the corners changes no face record.
pub proof fn lemma_link_corners_keep_faces(
    st: LinkState,
    vs: Seq<VertexId>,
    sides: Seq<(HalfedgeId, bool)>,
    f: FaceId,
    i: int,
)
    ensures
        link_corners(st, vs, sides, f, i).edit.g.faces == st.edit.g.faces,
        link_corners(st, vs, sides, f, i).edit.g.n_halfedges == st.edit.g.n_halfedges,
    decreases vs.len() - i,
{
    if 0 <= i < vs.len() {
        lemma_link_corner_keeps_faces(st, vs, sides, f, i);
        let linked = link_corner(st, vs, sides, f, i);
        if linked.edit.err is None {
            lemma_link_corners_keep_faces(linked, vs, sides, f, i + 1);
        }
    }
}

/// The ring of a face that was built with every side new.
pub proof fn lemma_new_face_ring(
    g: Graph,
    vs: Seq<VertexId>,
    keys: Seq<(HalfedgeId, HalfedgeId)>,
    f: FaceId,
)
    requires
        vs.len() >= 3,
        g.no_dangling(),
        fresh_sides(g, no_sides(vs.len()), keys),
        !g.faces.contains_key(f),
        g.build_face(
            vs,
            FacePlan { existing: no_sides(vs.len()), relinks: Seq::empty() },
            keys,
            f,
        ).err is None,
    ensures
        g.build_face(
            vs,
            FacePlan { existing: no_sides(vs.len()), relinks: Seq::empty() },
            keys,
            f,
        ).g.n_halfedges == g.n_halfedges + 2 * vs.len(),
        g.build_face(
            vs,
            FacePlan { existing: no_sides(vs.len()), relinks: Seq::empty() },
            keys,
            f,
        ).g.face_vertices(f) == vs,
        g.build_face(
            vs,
            FacePlan { existing: no_sides(vs.len()), relinks: Seq::empty() },
            keys,
            f,
        ).g.face_valence(f) == vs.len(),
{
    let n = vs.len() as int;
    let existing = no_sides(vs.len());
    let sides = face_sides(existing, keys);
    assert(keys_fresh(g, keys)) by {
        assert forall|k: int| 0 <= k < keys.len() implies !g.halfedges.contains_key(
            (#[trigger] keys[k]).0,
        ) && !g.halfedges.contains_key(keys[k].1) && keys[k].0 != keys[k].1 by {
            assert(existing[k] is None);
        }
        assert forall|k: int, l: int| 0 <= k < l < keys.len() implies (#[trigger] keys[k]).0 != (
        #[trigger] keys[l]).0 && keys[k].0 != keys[l].1 && keys[k].1 != keys[l].0 && keys[k].1
            != keys[l].1 by {
            assert(existing[k] is None && existing[l] is None);
        }
    }
    lemma_create_all_sides(Edit::of(g), vs, keys, 0);
    let e1 = Edit::of(g).create_sides(vs, existing, keys, 0);
    assert(sides[n - 1] == (keys[n - 1].0, true));
    let e2 = e1.add_face_record(f, Some(sides[n - 1].0));
    let st0 = LinkState { edit: e2, cache: Seq::empty(), adjust: Seq::empty() };
    lemma_corners_start(g, e1.g, st0, vs, keys, f);
    let st = link_corners(st0, vs, sides, f, 0);
    let e3 = st.edit.apply_links(st.cache, 0);
    let e4 = e3.adjust_all(st.adjust, 0);
    assert(g.build_face(vs, FacePlan { existing, relinks: Seq::empty() }, keys, f) == e4);
    assert(st.edit.err is None) by {
        if st.edit.err is Some {
            assert(e3.err is Some) by {
                if st.cache.len() > 0 {
                    assert(st.edit.set_next(st.cache[0].0, Some(st.cache[0].1)).err is Some);
                }
            }
            assert(e4.err is Some) by {
                if st.adjust.len() > 0 {
                    assert(e3.adjust_outgoing_halfedge(st.adjust[0]).err is Some);
                }
            }
        }
    }
    assert(e3.err is None) by {
        if e3.err is Some {
            if st.adjust.len() > 0 {
                assert(e3.adjust_outgoing_halfedge(st.adjust[0]).err is Some);
            }
        }
    }
    lemma_pass_corners(g, st0, vs, keys, f, 0);
    lemma_link_corners_keep_faces(st0, vs, sides, f, 0);
    lemma_adjust_all_keeps_halfedges(e3, st.adjust, 0);
    let after = e4.g;
    assert forall|k: int| 0 <= k < n implies after.halfedges.contains_key((#[trigger] keys[k]).0)
        && after.halfedges[keys[k].0].next == Some(keys[next_index(k, n)].0)
        && after.halfedges[keys[k].0].vertex == vs[next_index(k, n)] by {
        let h = keys[k].0;
        let b = keys[next_index(k, n)].0;
        assert(st.edit.g.halfedges.contains_key(keys[k].0));
        assert(st.edit.g.halfedges[keys[k].0].vertex == vs[next_index(k, n)]);
        assert forall|j: int| 0 <= j < st.cache.len() && (#[trigger] st.cache[j]).0 == h implies st.cache[j].1
            == b by {
            assert(is_inner(keys, st.cache[j].0));
            let kk = choose|kk: int| 0 <= kk < n && st.cache[j] == #[trigger] inner_link(keys, kk);
            lemma_fresh_apart(g, keys, kk, k);
        }
        lemma_next_after_links(st.edit, st.cache, 0, h, b);
        assert(st.cache.contains(inner_link(keys, k)));
        let j = choose|j: int| 0 <= j < st.cache.len() && st.cache[j] == inner_link(keys, k);
        assert(0 <= j < st.cache.len() && st.cache[j].0 == h);
    }
    assert(st.edit.g.halfedges.contains_key(keys[0].0));
    assert forall|j: int| 0 <= j < st.cache.len() && (#[trigger] st.cache[j]).0 == keys[0].0 implies st.cache[j].1
        == keys[next_index(0, n)].0 by {
        assert(is_inner(keys, st.cache[j].0));
        let kk = choose|kk: int| 0 <= kk < n && st.cache[j] == #[trigger] inner_link(keys, kk);
        lemma_fresh_apart(g, keys, kk, 0);
    }
    lemma_next_after_links(st.edit, st.cache, 0, keys[0].0, keys[next_index(0, n)].0);
    assert(after.faces == g.faces.insert(
        f,
        crate::mesh_elements::Face { halfedge: Some(keys[n - 1].0) },
    ));
    assert(after.n_halfedges == g.n_halfedges + 2 * n);
    let c = polygon_loop(keys);
    assert(after.face_halfedge(f) == Ok::<HalfedgeId, SMeshError>(keys[n - 1].0));
    assert(c[0] == keys[n - 1].0);
    assert forall|k: int| 0 <= k < c.len() implies after.he_next(#[trigger] c[k]) == Ok::<
        HalfedgeId,
        SMeshError,
    >(c[next_index(k, c.len() as int)]) by {
        let p = prev_index(k, n);
        assert(c[k] == keys[p].0);
        assert(after.halfedges.contains_key(keys[p].0));
        assert(next_index(p, n) == k);
        assert(prev_index(next_index(k, n), n) == k);
    }
    assert forall|k: int| 1 <= k < c.len() implies #[trigger] c[k] != c[0] by {
        lemma_fresh_apart(g, keys, k - 1, n - 1);
    }
    lemma_loop_walk(after, c, 0, after.n_halfedges);
    assert(c.skip(0) =~= c);
    assert(after.halfedges.contains_key(c[0])) by {
        assert(after.halfedges.contains_key(keys[n - 1].0));
    }
    assert(after.orbit(crate::graph::Turn::Next, c[0]) == c);
    assert forall|k: int| 0 <= k < c.len() implies after.halfedges.contains_key(#[trigger] c[k]) by {
        assert(after.halfedges.contains_key(keys[prev_index(k, n)].0));
    }
    lemma_targets_of_live(after, c);
    assert(Seq::new(c.len(), |k: int| after.halfedges[c[k]].vertex) =~= vs) by {
        assert forall|k: int| 0 <= k < n implies after.halfedges[c[k]].vertex == vs[k] by {
            let p = prev_index(k, n);
            assert(c[k] == keys[p].0);
            assert(after.halfedges.contains_key(keys[p].0));
            assert(next_index(p, n) == k);
        }
    }
}

/// Before the first corner is passed.
proof fn lemma_corners_start(
    g: Graph,
    g0: Graph,
    st0: LinkState,
    vs: Seq<VertexId>,
    keys: Seq<(HalfedgeId, HalfedgeId)>,
    f: FaceId,
)
    requires
        vs.len() >= 3,
        keys.len() == vs.len(),
        sides_made(g, g0, vs, keys, 0),
        st0 == (LinkState {
            edit: Edit::of(g0).add_face_record(f, Some(keys[vs.len() - 1].0)),
            cache: Seq::empty(),
            adjust: Seq::empty(),
        }),
    ensures
        corners_passed(g, st0, vs, keys, 0),
        st0.edit.g.faces == g.faces.insert(
            f,
            crate::mesh_elements::Face { halfedge: Some(keys[vs.len() - 1].0) },
        ),
        st0.edit.g.n_halfedges == g.n_halfedges + 2 * vs.len(),
{
    let n = vs.len() as int;
    let g2 = st0.edit.g;
    assert forall|k: int| 0 <= k < n implies #[trigger] g2.halfedges.contains_key(keys[k].0)
        && g2.halfedges.contains_key(keys[k].1) by {
        assert(g0.halfedges.contains_key(keys[k].0));
    }
    assert forall|k: int| 0 <= k < n implies (#[trigger] g2.halfedges[keys[k].0]).opposite == Some(
        keys[k].1,
    ) && g2.halfedges[keys[k].0].vertex == vs[next_index(k, n)] && g2.halfedges[keys[k].0].prev
        is None && g2.halfedges[keys[k].0].next is None by {
        assert(g0.halfedges[keys[k].0] == bare_inner(vs, keys, k));
    }
    assert forall|k: int| 0 <= k < n implies (#[trigger] g2.halfedges[keys[k].1]).opposite == Some(
        keys[k].0,
    ) && g2.halfedges[keys[k].1].prev is None && g2.halfedges[keys[k].1].next is None by {
        assert(g0.halfedges.contains_key(keys[k].0));
        assert(g0.halfedges[keys[k].1] == bare_outer(vs, keys, k));
    }
}

} // verus!
