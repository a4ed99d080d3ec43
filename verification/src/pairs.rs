use vstd::prelude::*;
use crate::edit::Edit;
use crate::error::{SMeshError, SMeshResult};
use crate::face_plan::{link_corner, link_corners, next_index, FacePlan, LinkState};
use crate::graph::Graph;
use crate::mesh_elements::{FaceId, HalfedgeId, VertexId};
use crate::selection::seq_add;
use crate::topological_operations::ok_of;

verus! {

impl Graph {
    /// The halfedge `h`, if it is live, has a live opposite other than
    /// itself, whose opposite it is.
    pub open spec fn paired_at(self, h: HalfedgeId) -> bool {
        self.halfedges.contains_key(h) ==> (match self.halfedges[h].opposite {
            Some(o) => o != h && self.halfedges.contains_key(o) && self.halfedges[o].opposite
                == Some(h),
            None => false,
        })
    }

    /// The halfedges come in opposite pairs.
    pub open spec fn paired(self) -> bool {
        forall|h: HalfedgeId| #[trigger] self.paired_at(h)
    }
}

/// The graph `a` has the halfedges of the graph `b`, each with the opposite
/// that it has in `b`.
pub open spec fn same_pairs(a: Graph, b: Graph) -> bool {
    &&& a.halfedges.dom() == b.halfedges.dom()
    &&& forall|h: HalfedgeId|
        b.halfedges.contains_key(h) ==> (#[trigger] a.halfedges[h]).opposite
            == b.halfedges[h].opposite
}

/// A graph with the pairs of a paired graph is paired.
pub proof fn lemma_same_pairs_paired(a: Graph, b: Graph)
    requires
        same_pairs(a, b),
        b.paired(),
    ensures
        a.paired(),
{
    assert forall|h: HalfedgeId| #[trigger] a.paired_at(h) by {
        if a.halfedges.contains_key(h) {
            assert(b.halfedges.contains_key(h));
            assert(b.paired_at(h));
            let o = b.halfedges[h].opposite->Some_0;
            assert(a.halfedges[h].opposite == Some(o));
            assert(b.halfedges.contains_key(o));
            assert(a.halfedges[o].opposite == b.halfedges[o].opposite);
        }
    }
}

/// Having the same pairs carries over.
pub proof fn lemma_same_pairs_trans(a: Graph, b: Graph, c: Graph)
    requires
        same_pairs(a, b),
        same_pairs(b, c),
    ensures
        same_pairs(a, c),
{
    assert forall|h: HalfedgeId| c.halfedges.contains_key(h) implies (#[trigger] a.halfedges[h]).opposite
        == c.halfedges[h].opposite by {
        assert(b.halfedges.contains_key(h));
        assert(b.halfedges[h].opposite == c.halfedges[h].opposite);
    }
}

/// Overwriting a halfedge record with one that has the same opposite leaves
/// the pairs as they are.
pub proof fn lemma_put_keeps_pairs(e: Edit, h: HalfedgeId, rec: crate::mesh_elements::Halfedge)
    requires
        e.g.halfedges.contains_key(h) ==> rec.opposite == e.g.halfedges[h].opposite,
    ensures
        same_pairs(e.put_he(h, rec).g, e.g),
{
    if e.err is None && e.g.halfedges.contains_key(h) {
        assert(e.put_he(h, rec).g.halfedges.dom() =~= e.g.halfedges.dom());
    }
}

/// Storing the next or the previous halfedge leaves the pairs as they are.
pub proof fn lemma_links_keep_pairs(e: Edit, h: HalfedgeId, x: Option<HalfedgeId>)
    ensures
        same_pairs(e.set_next_field(h, x).g, e.g),
        same_pairs(e.set_prev_field(h, x).g, e.g),
        same_pairs(e.set_next(h, x).g, e.g),
        same_pairs(e.set_prev(h, x).g, e.g),
{
    if e.err is None && e.g.halfedges.contains_key(h) {
        let rec = e.g.halfedges[h];
        lemma_put_keeps_pairs(e, h, crate::mesh_elements::Halfedge { next: x, ..rec });
        lemma_put_keeps_pairs(e, h, crate::mesh_elements::Halfedge { prev: x, ..rec });
    }
    let a = e.set_next_field(h, x);
    let b = e.set_prev_field(h, x);
    match x {
        Some(y) => {
            if a.err is None && a.g.halfedges.contains_key(y) {
                lemma_put_keeps_pairs(
                    a,
                    y,
                    crate::mesh_elements::Halfedge { prev: Some(h), ..a.g.halfedges[y] },
                );
            }
            if b.err is None && b.g.halfedges.contains_key(y) {
                lemma_put_keeps_pairs(
                    b,
                    y,
                    crate::mesh_elements::Halfedge { next: Some(h), ..b.g.halfedges[y] },
                );
            }
            lemma_same_pairs_trans(a.set_prev_field(y, Some(h)).g, a.g, e.g);
            lemma_same_pairs_trans(b.set_next_field(y, Some(h)).g, b.g, e.g);
        },
        None => {},
    }
}

/// Storing a field other than the opposite, adjusting an outgoing halfedge
/// and removing a vertex or a face leave the pairs as they are.
pub proof fn lemma_stores_keep_pairs(e: Edit)
    ensures
        forall|v: VertexId, h: Option<HalfedgeId>|
            same_pairs((#[trigger] e.set_vertex_halfedge(v, h)).g, e.g),
        forall|f: FaceId, h: Option<HalfedgeId>|
            same_pairs((#[trigger] e.set_face_halfedge(f, h)).g, e.g),
        forall|h: HalfedgeId, v: VertexId| same_pairs((#[trigger] e.set_vertex(h, v)).g, e.g),
        forall|h: HalfedgeId, f: Option<FaceId>| same_pairs((#[trigger] e.set_face(h, f)).g, e.g),
        forall|h: HalfedgeId, n: Option<HalfedgeId>|
            same_pairs((#[trigger] e.set_next(h, n)).g, e.g),
        forall|h: HalfedgeId, n: Option<HalfedgeId>|
            same_pairs((#[trigger] e.set_prev(h, n)).g, e.g),
        forall|v: VertexId| same_pairs((#[trigger] e.adjust_outgoing_halfedge(v)).g, e.g),
        forall|v: VertexId| same_pairs((#[trigger] e.try_adjust(v)).g, e.g),
        forall|v: VertexId| same_pairs((#[trigger] e.drop_vertex(v)).g, e.g),
        forall|f: FaceId| same_pairs((#[trigger] e.drop_face(f)).g, e.g),
        forall|f: Option<FaceId>| same_pairs((#[trigger] e.drop_face_of(f)).g, e.g),
        forall|f: Option<FaceId>, h: Option<HalfedgeId>|
            same_pairs((#[trigger] e.set_halfedge_of(f, h)).g, e.g),
        forall|h: Option<HalfedgeId>, n: Option<HalfedgeId>|
            same_pairs((#[trigger] e.set_next_of(h, n)).g, e.g),
        forall|x: SMeshError| same_pairs((#[trigger] e.fail(x)).g, e.g),
        forall|f: FaceId, h: Option<HalfedgeId>|
            same_pairs((#[trigger] e.add_face_record(f, h)).g, e.g),
        forall|v: VertexId| same_pairs((#[trigger] e.add_vertex(v)).g, e.g),
{
    assert forall|h: HalfedgeId, v: VertexId| same_pairs((#[trigger] e.set_vertex(h, v)).g, e.g) by {
        if e.err is None && e.g.halfedges.contains_key(h) {
            lemma_put_keeps_pairs(
                e,
                h,
                crate::mesh_elements::Halfedge { vertex: v, ..e.g.halfedges[h] },
            );
        }
    }
    assert forall|h: HalfedgeId, f: Option<FaceId>|
        same_pairs((#[trigger] e.set_face(h, f)).g, e.g) by {
        if e.err is None && e.g.halfedges.contains_key(h) {
            lemma_put_keeps_pairs(
                e,
                h,
                crate::mesh_elements::Halfedge { face: f, ..e.g.halfedges[h] },
            );
        }
    }
    assert forall|h: HalfedgeId, n: Option<HalfedgeId>|
        same_pairs((#[trigger] e.set_next(h, n)).g, e.g) by {
        lemma_links_keep_pairs(e, h, n);
    }
    assert forall|h: HalfedgeId, n: Option<HalfedgeId>|
        same_pairs((#[trigger] e.set_prev(h, n)).g, e.g) by {
        lemma_links_keep_pairs(e, h, n);
    }
    assert forall|h: Option<HalfedgeId>, n: Option<HalfedgeId>|
        same_pairs((#[trigger] e.set_next_of(h, n)).g, e.g) by {
        match h {
            Some(x) => {
                lemma_links_keep_pairs(e, x, n);
            },
            None => {},
        }
    }
}

/// Removing an edge of a paired graph leaves a paired graph.
pub proof fn lemma_drop_edge_paired(e: Edit, h: HalfedgeId)
    requires
        e.g.paired(),
    ensures
        e.drop_edge(h).g.paired(),
{
    let z = e.drop_edge(h).g;
    if e.err is None && e.g.halfedges.contains_key(h) {
        assert(e.g.paired_at(h));
        let o = e.g.halfedges[h].opposite->Some_0;
        assert(z.halfedges =~= e.g.halfedges.remove(h).remove(o));
        assert forall|x: HalfedgeId| #[trigger] z.paired_at(x) by {
            if z.halfedges.contains_key(x) {
                assert(e.g.paired_at(x));
                let y = e.g.halfedges[x].opposite->Some_0;
                assert(e.g.paired_at(y));
                assert(y != h && y != o);
            }
        }
    }
}

/// Adding an edge under fresh identifiers to a paired graph leaves a paired
/// graph.
pub proof fn lemma_add_edge_paired(e: Edit, v0: VertexId, v1: VertexId, h0: HalfedgeId, h1: HalfedgeId)
    requires
        e.g.paired(),
        !e.g.halfedges.contains_key(h0),
        !e.g.halfedges.contains_key(h1),
        h0 != h1,
    ensures
        e.add_edge(v0, v1, h0, h1).g.paired(),
{
    let z = e.add_edge(v0, v1, h0, h1).g;
    assert forall|x: HalfedgeId| #[trigger] z.paired_at(x) by {
        if z.halfedges.contains_key(x) && x != h0 && x != h1 {
            assert(e.g.paired_at(x));
        }
    }
}

/// A store that leaves the pairs as they are leaves a paired graph paired.
proof fn lemma_kept(before: Edit, after: Edit)
    requires
        before.g.paired(),
        same_pairs(after.g, before.g),
    ensures
        after.g.paired(),
{
    lemma_same_pairs_paired(after.g, before.g);
}

/// Making the missing sides of a face in a paired graph leaves a paired
/// graph.
pub proof fn lemma_create_sides_paired(
    e: Edit,
    vs: Seq<VertexId>,
    existing: Seq<Option<HalfedgeId>>,
    keys: Seq<(HalfedgeId, HalfedgeId)>,
    i: int,
)
    requires
        e.g.paired(),
        0 <= i <= vs.len(),
        keys.len() == existing.len(),
        existing.len() == vs.len(),
        forall|k: int|
            i <= k < existing.len() && existing[k] is None ==> !e.g.halfedges.contains_key(
                (#[trigger] keys[k]).0,
            ) && !e.g.halfedges.contains_key(keys[k].1) && keys[k].0 != keys[k].1,
        forall|k: int, l: int|
            i <= k < l < existing.len() && existing[k] is None && existing[l] is None ==> (
            #[trigger] keys[k]).0 != (#[trigger] keys[l]).0 && keys[k].0 != keys[l].1 && keys[k].1
                != keys[l].0 && keys[k].1 != keys[l].1,
    ensures
        e.create_sides(vs, existing, keys, i).g.paired(),
    decreases vs.len() - i,
{
    if i < vs.len() {
        match existing[i] {
            Some(_) => {
                lemma_create_sides_paired(e, vs, existing, keys, i + 1);
            },
            None => {
                let step = e.add_edge(
                    vs[i],
                    vs[next_index(i, vs.len() as int)],
                    keys[i].0,
                    keys[i].1,
                );
                lemma_add_edge_paired(
                    e,
                    vs[i],
                    vs[next_index(i, vs.len() as int)],
                    keys[i].0,
                    keys[i].1,
                );
                assert forall|k: int|
                    i + 1 <= k < existing.len() && existing[k] is None implies !step.g.halfedges.contains_key(
                    (#[trigger] keys[k]).0,
                ) && !step.g.halfedges.contains_key(keys[k].1) && keys[k].0 != keys[k].1 by {
                    assert(keys[i].0 != keys[k].0);
                }
                lemma_create_sides_paired(step, vs, existing, keys, i + 1);
            },
        }
    }
}

/// Linking one corner leaves the pairs as they are.
pub proof fn lemma_link_corner_keeps_pairs(
    st: LinkState,
    vs: Seq<VertexId>,
    sides: Seq<(HalfedgeId, bool)>,
    f: FaceId,
    i: int,
)
    ensures
        same_pairs(link_corner(st, vs, sides, f, i).edit.g, st.edit.g),
{
    lemma_stores_keep_pairs(st.edit);
    let ii = next_index(i, vs.len() as int);
    let v = vs[ii];
    let g = st.edit.g;
    let inner_prev = sides[i].0;
    let inner_next = sides[ii].0;
    match g.he_opposite(inner_prev) {
        Ok(outer_next) => {
            let a = st.edit.set_vertex_halfedge(v, Some(outer_next));
            lemma_stores_keep_pairs(a);
            lemma_same_pairs_trans(a.set_face(inner_prev, Some(f)).g, a.g, g);
        },
        Err(_) => {},
    }
    match g.he_next(inner_prev) {
        Ok(boundary_next) => {
            let a = st.edit.set_vertex_halfedge(v, Some(boundary_next));
            lemma_stores_keep_pairs(a);
            lemma_same_pairs_trans(a.set_face(inner_prev, Some(f)).g, a.g, g);
        },
        Err(_) => {},
    }
    assert forall|x: SMeshError| same_pairs(
        (#[trigger] st.edit.fail(x)).set_face(inner_prev, Some(f)).g,
        g,
    ) by {
        lemma_stores_keep_pairs(st.edit.fail(x));
        lemma_same_pairs_trans(st.edit.fail(x).set_face(inner_prev, Some(f)).g, st.edit.fail(x).g, g);
    }
}

/// Linking the corners leaves the pairs as they are.
pub proof fn lemma_link_corners_keep_pairs(
    st: LinkState,
    vs: Seq<VertexId>,
    sides: Seq<(HalfedgeId, bool)>,
    f: FaceId,
    i: int,
)
    ensures
        same_pairs(link_corners(st, vs, sides, f, i).edit.g, st.edit.g),
    decreases vs.len() - i,
{
    if 0 <= i < vs.len() {
        lemma_link_corner_keeps_pairs(st, vs, sides, f, i);
        let linked = link_corner(st, vs, sides, f, i);
        if linked.edit.err is None {
            lemma_link_corners_keep_pairs(linked, vs, sides, f, i + 1);
            lemma_same_pairs_trans(
                link_corners(linked, vs, sides, f, i + 1).edit.g,
                linked.edit.g,
                st.edit.g,
            );
        }
    }
}

/// Making the noted links leaves the pairs as they are.
pub proof fn lemma_apply_links_keeps_pairs(e: Edit, cache: Seq<(HalfedgeId, HalfedgeId)>, k: int)
    ensures
        same_pairs(e.apply_links(cache, k).g, e.g),
    decreases cache.len() - k,
{
    if 0 <= k < cache.len() {
        lemma_stores_keep_pairs(e);
        let linked = e.set_next(cache[k].0, Some(cache[k].1));
        if linked.err is None {
            lemma_apply_links_keeps_pairs(linked, cache, k + 1);
            lemma_same_pairs_trans(linked.apply_links(cache, k + 1).g, linked.g, e.g);
        }
    }
}

/// Adjusting outgoing halfedges leaves the pairs as they are.
pub proof fn lemma_adjust_all_keeps_pairs(e: Edit, vs: Seq<VertexId>, k: int)
    ensures
        same_pairs(e.adjust_all(vs, k).g, e.g),
    decreases vs.len() - k,
{
    if 0 <= k < vs.len() {
        lemma_stores_keep_pairs(e);
        let adjusted = e.adjust_outgoing_halfedge(vs[k]);
        if adjusted.err is None {
            lemma_adjust_all_keeps_pairs(adjusted, vs, k + 1);
            lemma_same_pairs_trans(adjusted.adjust_all(vs, k + 1).g, adjusted.g, e.g);
        }
    }
}

/// Building a planned face in a paired graph leaves a paired graph.
pub proof fn lemma_build_face_paired(
    g: Graph,
    vs: Seq<VertexId>,
    plan: FacePlan,
    keys: Seq<(HalfedgeId, HalfedgeId)>,
    f: FaceId,
)
    requires
        g.paired(),
        plan.existing.len() == vs.len(),
        crate::face_plan::fresh_sides(g, plan.existing, keys),
    ensures
        g.build_face(vs, plan, keys, f).g.paired(),
{
    let sides = crate::face_plan::face_sides(plan.existing, keys);
    lemma_create_sides_paired(Edit::of(g), vs, plan.existing, keys, 0);
    let e1 = Edit::of(g).create_sides(vs, plan.existing, keys, 0);
    lemma_stores_keep_pairs(e1);
    let e2 = e1.add_face_record(f, Some(sides[vs.len() - 1].0));
    lemma_kept(e1, e2);
    let st0 = LinkState { edit: e2, cache: plan.relinks, adjust: Seq::empty() };
    lemma_link_corners_keep_pairs(st0, vs, sides, f, 0);
    let st = link_corners(st0, vs, sides, f, 0);
    lemma_kept(e2, st.edit);
    lemma_apply_links_keeps_pairs(st.edit, st.cache, 0);
    let e3 = st.edit.apply_links(st.cache, 0);
    lemma_kept(st.edit, e3);
    lemma_adjust_all_keeps_pairs(e3, st.adjust, 0);
    lemma_kept(e3, e3.adjust_all(st.adjust, 0));
}

impl Graph {
    /// The halfedges stay in opposite pairs when a face is constructed,
    /// whether the construction succeeds or not.
    pub proof fn law_make_face_keeps_pairs(
        self,
        vs: Seq<VertexId>,
        after: Graph,
        r: SMeshResult<FaceId>,
    )
        requires
            self.paired(),
            self.made_face(vs, after, r),
        ensures
            after.paired(),
    {
        match self.face_plan(vs) {
            Err(_) => {},
            Ok(plan) => {
                let (keys, f) = choose|keys: Seq<(HalfedgeId, HalfedgeId)>, f: FaceId| #[trigger]
                    self.face_built(vs, plan, keys, f, after, r);
                self.lemma_face_plan_len(vs);
                lemma_build_face_paired(self, vs, plan, keys, f);
            },
        }
    }

    /// The halfedges stay in opposite pairs when a vertex is inserted into
    /// an edge.
    pub proof fn law_insert_vertex_keeps_pairs(
        self,
        h0: HalfedgeId,
        v: VertexId,
        after: Graph,
        r: SMeshResult<HalfedgeId>,
    )
        requires
            self.paired(),
            self.inserted_vertex(h0, v, after, r),
        ensures
            after.paired(),
    {
        match self.he_opposite(h0) {
            Err(_) => {},
            Ok(o0) => {
                let v2 = self.halfedges[h0].vertex;
                let (h1, o1) = choose|h1: HalfedgeId, o1: HalfedgeId|
                    {
                        &&& !self.halfedges.contains_key(h1)
                        &&& !self.halfedges.contains_key(o1)
                        &&& h1 != o1
                        &&& Edit::after(after, r) == #[trigger] self.split_edge(h0, v, o0, v2, h1, o1)
                        &&& (r is Ok ==> r == Ok::<HalfedgeId, SMeshError>(o1))
                    };
                lemma_split_edge_paired(self, h0, v, o0, v2, h1, o1);
            },
        }
    }
}

/// Splitting an edge of a paired graph under fresh identifiers leaves a
/// paired graph.
pub proof fn lemma_split_edge_paired(
    g: Graph,
    h0: HalfedgeId,
    v: VertexId,
    o0: HalfedgeId,
    v2: VertexId,
    h1: HalfedgeId,
    o1: HalfedgeId,
)
    requires
        g.paired(),
        !g.halfedges.contains_key(h1),
        !g.halfedges.contains_key(o1),
        h1 != o1,
    ensures
        g.split_edge(h0, v, o0, v2, h1, o1).g.paired(),
{
    let h2 = ok_of(g.he_next(h0));
    let o2 = ok_of(g.he_prev(o0));
    let fh = ok_of(g.he_face(h0));
    let fo = ok_of(g.he_face(o0));
    let e0 = Edit::of(g).add_edge(v, v2, h1, o1);
    lemma_add_edge_paired(Edit::of(g), v, v2, h1, o1);
    let e1 = e0.set_next(h1, h2);
    lemma_stores_keep_pairs(e0);
    lemma_kept(e0, e1);
    let e2 = e1.set_vertex(h1, v2);
    lemma_stores_keep_pairs(e1);
    lemma_kept(e1, e2);
    let e3 = e2.set_face(h1, fh);
    lemma_stores_keep_pairs(e2);
    lemma_kept(e2, e3);
    let e4 = e3.set_next(h0, Some(h1));
    lemma_stores_keep_pairs(e3);
    lemma_kept(e3, e4);
    let e5 = e4.set_vertex(h0, v);
    lemma_stores_keep_pairs(e4);
    lemma_kept(e4, e5);
    let e6 = e5.set_next(o1, Some(o0));
    lemma_stores_keep_pairs(e5);
    lemma_kept(e5, e6);
    let e7 = e6.set_vertex(o1, v);
    lemma_stores_keep_pairs(e6);
    lemma_kept(e6, e7);
    let e8 = e7.set_face(o1, fo);
    lemma_stores_keep_pairs(e7);
    lemma_kept(e7, e8);
    let e9 = e8.set_next_of(o2, Some(o1));
    lemma_stores_keep_pairs(e8);
    lemma_kept(e8, e9);
    let e10 = e9.set_vertex_halfedge(v2, Some(o1));
    lemma_stores_keep_pairs(e9);
    lemma_kept(e9, e10);
    let e11 = e10.adjust_outgoing_halfedge(v2);
    lemma_stores_keep_pairs(e10);
    lemma_kept(e10, e11);
    let e12 = e11.set_vertex_halfedge(v, Some(h1));
    lemma_stores_keep_pairs(e11);
    lemma_kept(e11, e12);
    let e13 = e12.adjust_outgoing_halfedge(v);
    lemma_stores_keep_pairs(e12);
    lemma_kept(e12, e13);
    let e14 = e13.set_halfedge_of(fh, Some(h0));
    lemma_stores_keep_pairs(e13);
    lemma_kept(e13, e14);
    let e15 = e14.set_halfedge_of(fo, Some(o1));
    lemma_stores_keep_pairs(e14);
    lemma_kept(e14, e15);
}

/// Every single store or removal leaves a paired graph paired.
pub proof fn lemma_steps_paired(e: Edit)
    requires
        e.g.paired(),
    ensures
        forall|v: VertexId, h: Option<HalfedgeId>|
            (#[trigger] e.set_vertex_halfedge(v, h)).g.paired(),
        forall|f: FaceId, h: Option<HalfedgeId>| (#[trigger] e.set_face_halfedge(f, h)).g.paired(),
        forall|h: HalfedgeId, v: VertexId| (#[trigger] e.set_vertex(h, v)).g.paired(),
        forall|h: HalfedgeId, f: Option<FaceId>| (#[trigger] e.set_face(h, f)).g.paired(),
        forall|h: HalfedgeId, n: Option<HalfedgeId>| (#[trigger] e.set_next(h, n)).g.paired(),
        forall|v: VertexId| (#[trigger] e.adjust_outgoing_halfedge(v)).g.paired(),
        forall|v: VertexId| (#[trigger] e.try_adjust(v)).g.paired(),
        forall|v: VertexId| (#[trigger] e.drop_vertex(v)).g.paired(),
        forall|f: FaceId| (#[trigger] e.drop_face(f)).g.paired(),
        forall|f: Option<FaceId>| (#[trigger] e.drop_face_of(f)).g.paired(),
        forall|f: Option<FaceId>, h: Option<HalfedgeId>|
            (#[trigger] e.set_halfedge_of(f, h)).g.paired(),
        forall|h: Option<HalfedgeId>, n: Option<HalfedgeId>|
            (#[trigger] e.set_next_of(h, n)).g.paired(),
        forall|x: SMeshError| (#[trigger] e.fail(x)).g.paired(),
        forall|h: HalfedgeId| (#[trigger] e.drop_edge(h)).g.paired(),
        forall|v: VertexId, gone: HalfedgeId, next: HalfedgeId|
            (#[trigger] e.release_vertex(v, gone, next)).g.paired(),
{
    lemma_stores_keep_pairs(e);
    assert forall|v: VertexId, h: Option<HalfedgeId>|
        (#[trigger] e.set_vertex_halfedge(v, h)).g.paired() by {
        lemma_kept(e, e.set_vertex_halfedge(v, h));
    }
    assert forall|f: FaceId, h: Option<HalfedgeId>|
        (#[trigger] e.set_face_halfedge(f, h)).g.paired() by {
        lemma_kept(e, e.set_face_halfedge(f, h));
    }
    assert forall|h: HalfedgeId, v: VertexId| (#[trigger] e.set_vertex(h, v)).g.paired() by {
        lemma_kept(e, e.set_vertex(h, v));
    }
    assert forall|h: HalfedgeId, f: Option<FaceId>| (#[trigger] e.set_face(h, f)).g.paired() by {
        lemma_kept(e, e.set_face(h, f));
    }
    assert forall|h: HalfedgeId, n: Option<HalfedgeId>|
        (#[trigger] e.set_next(h, n)).g.paired() by {
        lemma_kept(e, e.set_next(h, n));
    }
    assert forall|v: VertexId| (#[trigger] e.adjust_outgoing_halfedge(v)).g.paired() by {
        lemma_kept(e, e.adjust_outgoing_halfedge(v));
    }
    assert forall|v: VertexId| (#[trigger] e.try_adjust(v)).g.paired() by {
        lemma_kept(e, e.try_adjust(v));
    }
    assert forall|v: VertexId| (#[trigger] e.drop_vertex(v)).g.paired() by {
        lemma_kept(e, e.drop_vertex(v));
    }
    assert forall|f: FaceId| (#[trigger] e.drop_face(f)).g.paired() by {
        lemma_kept(e, e.drop_face(f));
    }
    assert forall|f: Option<FaceId>| (#[trigger] e.drop_face_of(f)).g.paired() by {
        lemma_kept(e, e.drop_face_of(f));
    }
    assert forall|f: Option<FaceId>, h: Option<HalfedgeId>|
        (#[trigger] e.set_halfedge_of(f, h)).g.paired() by {
        lemma_kept(e, e.set_halfedge_of(f, h));
    }
    assert forall|h: Option<HalfedgeId>, n: Option<HalfedgeId>|
        (#[trigger] e.set_next_of(h, n)).g.paired() by {
        lemma_kept(e, e.set_next_of(h, n));
    }
    assert forall|x: SMeshError| (#[trigger] e.fail(x)).g.paired() by {
        lemma_kept(e, e.fail(x));
    }
    assert forall|h: HalfedgeId| (#[trigger] e.drop_edge(h)).g.paired() by {
        lemma_drop_edge_paired(e, h);
    }
    assert forall|v: VertexId, gone: HalfedgeId, next: HalfedgeId|
        (#[trigger] e.release_vertex(v, gone, next)).g.paired() by {
        let r = e.release_vertex(v, gone, next);
        if e.err is None {
            match e.g.vertex_halfedge(v) {
                Err(x) => {
                    assert(r == e.fail(x));
                },
                Ok(h) => {
                    if h == gone {
                        if next == gone {
                            assert(r == e.drop_vertex(v));
                        } else {
                            assert(r == e.set_vertex_halfedge(v, Some(next)));
                        }
                    }
                },
            }
        }
    }
}

/// Taking the face off halfedges leaves a paired graph paired.
pub proof fn lemma_clear_faces_paired(e: Edit, hs: Seq<HalfedgeId>, i: int)
    requires
        e.g.paired(),
    ensures
        e.clear_faces(hs, i).g.paired(),
    decreases hs.len() - i,
{
    if 0 <= i < hs.len() {
        lemma_steps_paired(e);
        let cleared = e.set_face(hs[i], None);
        if cleared.err is None {
            lemma_clear_faces_paired(cleared, hs, i + 1);
        }
    }
}

/// Removing only a face leaves a paired graph paired.
pub proof fn lemma_delete_only_face_paired(e: Edit, f: FaceId)
    requires
        e.g.paired(),
    ensures
        e.delete_only_face(f).g.paired(),
{
    if e.err is None {
        let ring = e.g.face_halfedges(f);
        lemma_clear_faces_paired(e, ring, 0);
        lemma_steps_paired(e.clear_faces(ring, 0));
    }
}

/// Adjusting outgoing halfedges where that succeeds leaves a paired graph
/// paired.
pub proof fn lemma_try_adjust_all_paired(e: Edit, vs: Seq<VertexId>, k: int)
    requires
        e.g.paired(),
    ensures
        e.try_adjust_all(vs, k).g.paired(),
    decreases vs.len() - k,
{
    if 0 <= k < vs.len() && e.err is None {
        lemma_steps_paired(e);
        lemma_try_adjust_all_paired(e.try_adjust(vs[k]), vs, k + 1);
    }
}

/// Unlinking an edge removes both of its halfedges: a paired graph stays
/// paired.
pub proof fn lemma_unlink_edge_paired(e: Edit, h0: HalfedgeId)
    requires
        e.g.paired(),
    ensures
        e.unlink_edge(h0).g.paired(),
{
    lemma_steps_paired(e);
    if e.err is None {
        let g = e.g;
        if g.he_vertex(h0) is Ok && g.he_next(h0) is Ok && g.he_prev(h0) is Ok && g.he_opposite(
            h0,
        ) is Ok {
            let h1 = g.he_opposite(h0)->Ok_0;
            if g.he_vertex(h1) is Ok && g.he_next(h1) is Ok && g.he_prev(h1) is Ok {
                let v0 = g.he_vertex(h0)->Ok_0;
                let next0 = g.he_next(h0)->Ok_0;
                let prev0 = g.he_prev(h0)->Ok_0;
                let v1 = g.he_vertex(h1)->Ok_0;
                let next1 = g.he_next(h1)->Ok_0;
                let prev1 = g.he_prev(h1)->Ok_0;
                let a = e.set_next(prev0, Some(next1));
                lemma_steps_paired(a);
                let b = a.set_next(prev1, Some(next0));
                lemma_steps_paired(b);
                let c = b.drop_edge(h0);
                lemma_steps_paired(c);
                let d = c.release_vertex(v0, h1, next0);
                lemma_steps_paired(d);
                assert(e.unlink_edge(h0) == d.release_vertex(v1, h0, next1));
            }
        }
    }
}

/// Unlinking edges leaves a paired graph paired.
pub proof fn lemma_unlink_edges_paired(e: Edit, hs: Seq<HalfedgeId>, k: int)
    requires
        e.g.paired(),
    ensures
        e.unlink_edges(hs, k).g.paired(),
    decreases hs.len() - k,
{
    if 0 <= k < hs.len() {
        lemma_unlink_edge_paired(e, hs[k]);
        let unlinked = e.unlink_edge(hs[k]);
        if unlinked.err is None {
            lemma_unlink_edges_paired(unlinked, hs, k + 1);
        }
    }
}

/// Removing a face with what hangs on it leaves a paired graph paired.
pub proof fn lemma_delete_face_paired(e: Edit, f: FaceId)
    requires
        e.g.paired(),
    ensures
        e.delete_face(f).g.paired(),
{
    if e.err is None {
        let ring = e.g.face_halfedges(f);
        lemma_steps_paired(e);
        let a = e.check(e.g.corners_readable(ring, 0));
        assert(a.g.paired());
        lemma_clear_faces_paired(a, ring, 0);
        let b = a.clear_faces(ring, 0);
        lemma_steps_paired(b);
        let c = b.drop_face(f);
        let lone = e.g.lone_edges(ring, 0, Seq::empty());
        lemma_unlink_edges_paired(c, lone, 0);
        lemma_try_adjust_all_paired(c.unlink_edges(lone, 0), e.g.targets(ring), 0);
    }
}

/// Removing faces leaves a paired graph paired.
pub proof fn lemma_delete_faces_paired(e: Edit, fs: Seq<FaceId>, k: int)
    requires
        e.g.paired(),
    ensures
        e.delete_faces(fs, k).g.paired(),
    decreases fs.len() - k,
{
    if 0 <= k < fs.len() {
        lemma_delete_face_paired(e, fs[k]);
        let deleted = e.delete_face(fs[k]);
        if deleted.err is None {
            lemma_delete_faces_paired(deleted, fs, k + 1);
        }
    }
}

/// Removing the face of a halfedge leaves a paired graph paired.
pub proof fn lemma_delete_face_of_paired(e: Edit, h: SMeshResult<HalfedgeId>)
    requires
        e.g.paired(),
    ensures
        e.delete_face_of(h).g.paired(),
{
    if e.err is None {
        match h {
            Err(_) => {},
            Ok(h) => match e.g.he_face(h) {
                Ok(f) => {
                    lemma_delete_face_paired(e, f);
                },
                Err(_) => {},
            },
        }
    }
}

/// Leading halfedges into stored outgoing halfedges leaves a paired graph
/// paired.
pub proof fn lemma_rethread_paired(e: Edit, hs: Seq<HalfedgeId>, k: int)
    requires
        e.g.paired(),
    ensures
        e.rethread(hs, k).g.paired(),
    decreases hs.len() - k,
{
    if 0 <= k < hs.len() && e.err is None {
        lemma_steps_paired(e);
        let next = match e.g.he_vertex(hs[k]) {
            Ok(v) => match e.g.vertex_halfedge(v) {
                Ok(h) => Some(h),
                Err(_) => None,
            },
            Err(_) => None,
        };
        lemma_rethread_paired(Edit::of(e.set_next(hs[k], next).g), hs, k + 1);
    }
}

/// Adjusting outgoing halfedges leaves a paired graph paired.
pub proof fn lemma_adjust_all_paired(e: Edit, vs: Seq<VertexId>)
    requires
        e.g.paired(),
    ensures
        e.adjust_all(vs, 0).g.paired(),
{
    lemma_adjust_all_keeps_pairs(e, vs, 0);
    lemma_kept(e, e.adjust_all(vs, 0));
}

/// Removing only an edge leaves a paired graph paired.
pub proof fn lemma_delete_only_edge_paired(e: Edit, h: HalfedgeId)
    requires
        e.g.paired(),
    ensures
        e.delete_only_edge(h).g.paired(),
{
    if e.err is None && e.g.halfedges.contains_key(h) {
        let a = e.try_delete_only_face_of(h);
        match e.g.he_face(h) {
            Ok(f) => {
                lemma_delete_only_face_paired(e, f);
            },
            Err(_) => {},
        }
        assert(a.g.paired());
        lemma_steps_paired(a);
        match a.g.src_vertex(h) {
            Err(_) => {},
            Ok(src) => {
                let hs0: Seq<HalfedgeId> = match a.g.he_prev(h) {
                    Ok(p) => seq![p],
                    Err(_) => Seq::empty(),
                };
                match a.g.he_opposite(h) {
                    Err(_) => {
                        lemma_adjust_all_paired(a.drop_edge(h), seq![src]);
                        lemma_rethread_paired(a.drop_edge(h).adjust_all(seq![src], 0), hs0, 0);
                    },
                    Ok(o) => {
                        let b = match a.g.he_face(o) {
                            Ok(f) => a.delete_only_face(f),
                            Err(_) => a,
                        };
                        match a.g.he_face(o) {
                            Ok(f) => {
                                lemma_delete_only_face_paired(a, f);
                            },
                            Err(_) => {},
                        }
                        lemma_steps_paired(b);
                        let hs1 = match b.g.he_prev(o) {
                            Ok(p) => seq_add(hs0, p),
                            Err(_) => hs0,
                        };
                        match b.g.src_vertex(o) {
                            Err(_) => {},
                            Ok(dst) => {
                                let vs = seq_add(seq![src], dst);
                                lemma_adjust_all_paired(b.drop_edge(h), vs);
                                lemma_rethread_paired(b.drop_edge(h).adjust_all(vs, 0), hs1, 0);
                            },
                        }
                    },
                }
            },
        }
    }
}

/// The halfedges stay in opposite pairs under every deletion, whether it
/// succeeds or not: of a face, of a vertex, of an edge, and of a face or an
/// edge alone.
pub proof fn law_deletion_keeps_pairs(g: Graph, v: VertexId, h: HalfedgeId, f: FaceId)
    requires
        g.paired(),
    ensures
        Edit::of(g).delete_face(f).g.paired(),
        Edit::of(g).delete_vertex(v).g.paired(),
        Edit::of(g).delete_edge(h).g.paired(),
        Edit::of(g).delete_only_face(f).g.paired(),
        Edit::of(g).delete_only_edge(h).g.paired(),
{
    let e = Edit::of(g);
    lemma_delete_face_paired(e, f);
    lemma_delete_faces_paired(e, g.vertex_faces(v), 0);
    lemma_steps_paired(e.delete_faces(g.vertex_faces(v), 0));
    lemma_delete_face_of_paired(e, Ok(h));
    let first = e.delete_face_of(Ok(h));
    lemma_delete_face_of_paired(first, first.g.he_opposite(h));
    lemma_steps_paired(first.delete_face_of(first.g.he_opposite(h)));
    lemma_delete_only_face_paired(e, f);
    lemma_delete_only_edge_paired(e, h);
}

/// Storing a target or a face on halfedges leaves a paired graph paired.
pub proof fn lemma_retarget_paired(e: Edit, hs: Seq<HalfedgeId>, v: VertexId, i: int)
    requires
        e.g.paired(),
    ensures
        e.retarget(hs, v, i).g.paired(),
    decreases hs.len() - i,
{
    if 0 <= i < hs.len() {
        lemma_steps_paired(e);
        let stored = e.set_vertex(hs[i], v);
        if stored.err is None {
            lemma_retarget_paired(stored, hs, v, i + 1);
        }
    }
}

/// Storing a face on halfedges leaves a paired graph paired.
pub proof fn lemma_reface_paired(e: Edit, hs: Seq<HalfedgeId>, f: Option<FaceId>, i: int)
    requires
        e.g.paired(),
    ensures
        e.reface(hs, f, i).g.paired(),
    decreases hs.len() - i,
{
    if 0 <= i < hs.len() {
        lemma_steps_paired(e);
        let stored = e.set_face(hs[i], f);
        if stored.err is None {
            lemma_reface_paired(stored, hs, f, i + 1);
        }
    }
}

/// Merging the faces beside an edge removes both of its halfedges: a paired
/// graph stays paired.
pub proof fn lemma_merge_faces_paired(
    g: Graph,
    h0: HalfedgeId,
    h1: HalfedgeId,
    v0: VertexId,
    v1: VertexId,
)
    requires
        g.paired(),
    ensures
        g.merge_faces(h0, h1, v0, v1).g.paired(),
{
    let f0 = ok_of(g.he_face(h0));
    let f1 = ok_of(g.he_face(h1));
    let h0_prev = ok_of(g.he_prev(h0));
    let h0_next = ok_of(g.he_next(h0));
    let h1_prev = ok_of(g.he_prev(h1));
    let h1_next = ok_of(g.he_next(h1));
    lemma_steps_paired(Edit::of(g));
    let a = if g.vertex_halfedge(v0) == Ok::<HalfedgeId, SMeshError>(h1) {
        Edit::of(g).set_vertex_halfedge(v0, h0_next)
    } else {
        Edit::of(g)
    };
    lemma_steps_paired(a);
    let b = if a.g.vertex_halfedge(v1) == Ok::<HalfedgeId, SMeshError>(h0) {
        a.set_vertex_halfedge(v1, h1_next)
    } else {
        a
    };
    let c = match f0 {
        Some(f0) => b.reface(b.g.face_halfedges(f0), f1, 0),
        None => b,
    };
    match f0 {
        Some(f0) => {
            lemma_reface_paired(b, b.g.face_halfedges(f0), f1, 0);
        },
        None => {},
    }
    lemma_steps_paired(c);
    let c1 = c.set_next_of(h1_prev, h0_next);
    lemma_steps_paired(c1);
    let d = c1.set_next_of(h0_prev, h1_next);
    lemma_steps_paired(d);
    let e = match f1 {
        Some(f1) => if d.g.face_halfedge(f1) == Ok::<HalfedgeId, SMeshError>(h1) {
            d.set_face_halfedge(f1, h1_next)
        } else {
            d
        },
        None => d,
    };
    assert(e.g.paired());
    lemma_steps_paired(e);
    lemma_steps_paired(e.drop_face_of(f0));
}

/// Moving one end of an edge into the other removes both of its halfedges:
/// a paired graph stays paired.
pub proof fn lemma_remove_edge_helper_paired(e: Edit, h: HalfedgeId)
    requires
        e.g.paired(),
    ensures
        e.remove_edge_helper(h).g.paired(),
{
    lemma_steps_paired(e);
    if e.err is None {
        match e.g.collapse_site(h) {
            Err(_) => {},
            Ok(s) => {
                let hs = e.g.opposites_of(e.g.vertex_halfedges(s.vo), 0, Seq::empty());
                lemma_retarget_paired(e, hs, s.vh, 0);
                let a0 = e.retarget(hs, s.vh, 0);
                lemma_steps_paired(a0);
                let a1 = a0.set_next(s.hp, Some(s.hn));
                lemma_steps_paired(a1);
                let a2 = a1.set_next(s.op, Some(s.on));
                lemma_steps_paired(a2);
                let a3 = a2.set_halfedge_of(s.fh, Some(s.hn));
                lemma_steps_paired(a3);
                let a = a3.set_halfedge_of(s.fo, Some(s.on));
                lemma_steps_paired(a);
                if a.err is None {
                    match a.g.vertex_halfedge(s.vh) {
                        Err(_) => {},
                        Ok(stored) => match a.g.he_opposite(h) {
                            Err(_) => {},
                            Ok(o) => {
                                let b0 = if stored == o {
                                    a.set_vertex_halfedge(s.vh, Some(s.hn))
                                } else {
                                    a
                                };
                                lemma_steps_paired(b0);
                                let b1 = b0.adjust_outgoing_halfedge(s.vh);
                                lemma_steps_paired(b1);
                                let b2 = b1.set_vertex_halfedge(s.vo, None);
                                lemma_steps_paired(b2);
                                let b3 = b2.drop_vertex(s.vo);
                                lemma_steps_paired(b3);
                            },
                        },
                    }
                }
            },
        }
    }
}

/// Closing a loop of two halfedges removes both halfedges of one edge: a
/// paired graph stays paired.
pub proof fn lemma_close_loop_paired(
    e: Edit,
    h0: HalfedgeId,
    h1: HalfedgeId,
    o0: HalfedgeId,
    o1: HalfedgeId,
    v0: VertexId,
    v1: VertexId,
    fh: Option<FaceId>,
    fo: Option<FaceId>,
)
    requires
        e.g.paired(),
    ensures
        e.close_loop(h0, h1, o0, o1, v0, v1, fh, fo).g.paired(),
{
    lemma_steps_paired(e);
    let a = e.set_next(h1, ok_of(e.g.he_next(o0)));
    lemma_steps_paired(a);
    if a.err is None {
        match a.g.he_prev(o0) {
            Err(_) => {},
            Ok(o0_prev) => {
                let b0 = a.set_next(o0_prev, Some(h1));
                lemma_steps_paired(b0);
                let b1 = b0.set_face(h1, fo);
                lemma_steps_paired(b1);
                let b2 = b1.set_vertex_halfedge(v0, Some(h1));
                lemma_steps_paired(b2);
                let b3 = b2.adjust_outgoing_halfedge(v0);
                lemma_steps_paired(b3);
                let b4 = b3.set_vertex_halfedge(v1, Some(o1));
                lemma_steps_paired(b4);
                let b = b4.adjust_outgoing_halfedge(v1);
                lemma_steps_paired(b);
                if b.err is None {
                    let c = match fo {
                        None => b,
                        Some(fo) => match b.g.face_halfedge(fo) {
                            Err(x) => b.fail(x),
                            Ok(stored) => if stored == o0 {
                                b.set_face_halfedge(fo, Some(h1))
                            } else {
                                b
                            },
                        },
                    };
                    assert(c.g.paired());
                    lemma_steps_paired(c);
                    lemma_steps_paired(c.drop_face_of(fh));
                }
            },
        }
    }
}

/// Removing a loop of two halfedges, where there is one at `h`, leaves a
/// paired graph paired.
pub proof fn lemma_remove_loop_at_paired(e: Edit, h0: HalfedgeId)
    requires
        e.g.paired(),
    ensures
        e.remove_loop_at(h0).g.paired(),
        e.remove_loop_helper(h0).g.paired(),
{
    lemma_steps_paired(e);
    if e.err is None {
        let g = e.g;
        if g.he_next(h0) is Ok && g.he_opposite(h0) is Ok {
            let h1 = g.he_next(h0)->Ok_0;
            let o0 = g.he_opposite(h0)->Ok_0;
            if g.he_opposite(h1) is Ok && g.he_vertex(h0) is Ok && g.he_vertex(h1) is Ok
                && g.he_next(h1) is Ok {
                lemma_close_loop_paired(
                    e,
                    h0,
                    h1,
                    o0,
                    g.he_opposite(h1)->Ok_0,
                    g.he_vertex(h0)->Ok_0,
                    g.he_vertex(h1)->Ok_0,
                    ok_of(g.he_face(h0)),
                    ok_of(g.he_face(o0)),
                );
            }
        }
    }
}

/// The halfedges stay in opposite pairs when an edge is collapsed and when
/// an edge is removed between two faces, whether that succeeds or not.
pub proof fn law_collapse_and_removal_keep_pairs(g: Graph, h: HalfedgeId)
    requires
        g.paired(),
    ensures
        Edit::of(g).collapse(h).g.paired(),
        g.remove_edge(h).g.paired(),
{
    let e = Edit::of(g);
    lemma_steps_paired(e);
    match g.he_prev(h) {
        Err(_) => {},
        Ok(h1) => match g.cw(h) {
            Err(_) => {},
            Ok(o1) => {
                lemma_remove_edge_helper_paired(e, h);
                let a = e.remove_edge_helper(h);
                lemma_remove_loop_at_paired(a, h1);
                lemma_remove_loop_at_paired(a.remove_loop_at(h1), o1);
            },
        },
    }
    match g.is_removal_ok(h) {
        Err(_) => {},
        Ok(()) => {
            lemma_merge_faces_paired(
                g,
                h,
                g.he_opposite(h)->Ok_0,
                g.halfedges[h].vertex,
                g.halfedges[g.he_opposite(h)->Ok_0].vertex,
            );
        },
    }
}

} // verus!
