use vstd::prelude::*;
use crate::edit::Edit;
use crate::error::SMeshResult;
use crate::face_plan::{link_corner, link_corners, FacePlan, LinkState};
use crate::graph::Graph;
use crate::mesh_elements::{FaceId, HalfedgeId, VertexId};

verus! {

/// Two graphs hold the same number of records of each kind, and the same
/// vertices.
pub open spec fn same_counts(a: Graph, b: Graph) -> bool {
    &&& a.n_vertices == b.n_vertices
    &&& a.n_halfedges == b.n_halfedges
    &&& a.n_faces == b.n_faces
    &&& a.vertices.dom() == b.vertices.dom()
}

/// The number of sides from the `i`-th on for which no halfedge exists yet.
pub open spec fn new_side_count(existing: Seq<Option<HalfedgeId>>, i: int) -> nat
    decreases existing.len() - i,
{
    if i < 0 || i >= existing.len() {
        0
    } else {
        (if existing[i] is None {
            1nat
        } else {
            0nat
        }) + new_side_count(existing, i + 1)
    }
}

/// Storing a field of a record adds and removes nothing.
pub proof fn lemma_stores_keep_counts(e: Edit)
    ensures
        forall|v: VertexId, h: Option<HalfedgeId>|
            same_counts((#[trigger] e.set_vertex_halfedge(v, h)).g, e.g),
        forall|f: FaceId, h: Option<HalfedgeId>|
            same_counts((#[trigger] e.set_face_halfedge(f, h)).g, e.g),
        forall|h: HalfedgeId, v: VertexId| same_counts((#[trigger] e.set_vertex(h, v)).g, e.g),
        forall|h: HalfedgeId, f: Option<FaceId>| same_counts((#[trigger] e.set_face(h, f)).g, e.g),
        forall|h: HalfedgeId, n: Option<HalfedgeId>|
            same_counts((#[trigger] e.set_next(h, n)).g, e.g),
        forall|h: HalfedgeId, n: Option<HalfedgeId>|
            same_counts((#[trigger] e.set_prev(h, n)).g, e.g),
        forall|v: VertexId| same_counts((#[trigger] e.adjust_outgoing_halfedge(v)).g, e.g),
{
    assert forall|v: VertexId, h: Option<HalfedgeId>|
        same_counts((#[trigger] e.set_vertex_halfedge(v, h)).g, e.g) by {
        lemma_put_vert_keeps_dom(e, v, h);
    }
    assert forall|v: VertexId| same_counts((#[trigger] e.adjust_outgoing_halfedge(v)).g, e.g) by {
        if e.err is None {
            match e.g.vertex_halfedge(v) {
                Ok(h0) => {
                    match e.g.find_boundary(h0, h0, e.g.n_halfedges) {
                        Ok(Some(h)) => {
                            lemma_put_vert_keeps_dom(e, v, Some(h));
                        },
                        _ => {},
                    }
                },
                Err(_) => {},
            }
        }
    }
}

proof fn lemma_put_vert_keeps_dom(e: Edit, v: VertexId, h: Option<HalfedgeId>)
    ensures
        same_counts(e.set_vertex_halfedge(v, h).g, e.g),
{
    let after = e.set_vertex_halfedge(v, h).g;
    assert(after.vertices.dom() =~= e.g.vertices.dom());
}

/// Making the noted links adds and removes nothing.
pub proof fn lemma_apply_links_keeps_counts(e: Edit, cache: Seq<(HalfedgeId, HalfedgeId)>, k: int)
    ensures
        same_counts(e.apply_links(cache, k).g, e.g),
    decreases cache.len() - k,
{
    if 0 <= k < cache.len() {
        lemma_stores_keep_counts(e);
        let linked = e.set_next(cache[k].0, Some(cache[k].1));
        if linked.err is None {
            lemma_apply_links_keeps_counts(linked, cache, k + 1);
        }
    }
}

/// Adjusting outgoing halfedges adds and removes nothing.
pub proof fn lemma_adjust_all_keeps_counts(e: Edit, vs: Seq<VertexId>, k: int)
    ensures
        same_counts(e.adjust_all(vs, k).g, e.g),
    decreases vs.len() - k,
{
    if 0 <= k < vs.len() {
        lemma_stores_keep_counts(e);
        let adjusted = e.adjust_outgoing_halfedge(vs[k]);
        if adjusted.err is None {
            lemma_adjust_all_keeps_counts(adjusted, vs, k + 1);
        }
    }
}

/// Linking one corner adds and removes nothing.
pub proof fn lemma_link_corner_keeps_counts(
    st: LinkState,
    vs: Seq<VertexId>,
    sides: Seq<(HalfedgeId, bool)>,
    f: FaceId,
    i: int,
)
    ensures
        same_counts(link_corner(st, vs, sides, f, i).edit.g, st.edit.g),
{
    lemma_stores_keep_counts(st.edit);
    let ii = crate::face_plan::next_index(i, vs.len() as int);
    let v = vs[ii];
    let g = st.edit.g;
    let inner_prev = sides[i].0;
    let inner_next = sides[ii].0;
    match g.he_opposite(inner_prev) {
        Ok(outer_next) => {
            lemma_stores_keep_counts(st.edit.set_vertex_halfedge(v, Some(outer_next)));
        },
        Err(_) => {},
    }
    match g.he_next(inner_prev) {
        Ok(boundary_next) => {
            lemma_stores_keep_counts(st.edit.set_vertex_halfedge(v, Some(boundary_next)));
        },
        Err(_) => {},
    }
    match g.he_opposite(inner_next) {
        Ok(_) => {},
        Err(e) => {
            lemma_stores_keep_counts(st.edit.fail(e));
        },
    }
    match g.he_opposite(inner_prev) {
        Ok(_) => {},
        Err(e) => {
            lemma_stores_keep_counts(st.edit.fail(e));
        },
    }
    match g.he_prev(inner_next) {
        Ok(_) => {},
        Err(e) => {
            lemma_stores_keep_counts(st.edit.fail(e));
        },
    }
    match g.he_next(inner_prev) {
        Ok(_) => {},
        Err(e) => {
            lemma_stores_keep_counts(st.edit.fail(e));
        },
    }
    match g.vertex_halfedge(v) {
        Ok(bn) => {
            match g.he_prev(bn) {
                Ok(_) => {},
                Err(e) => {
                    lemma_stores_keep_counts(st.edit.fail(e));
                },
            }
        },
        Err(e) => {
            lemma_stores_keep_counts(st.edit.fail(e));
        },
    }
}

/// Linking the corners adds and removes nothing.
pub proof fn lemma_link_corners_keep_counts(
    st: LinkState,
    vs: Seq<VertexId>,
    sides: Seq<(HalfedgeId, bool)>,
    f: FaceId,
    i: int,
)
    ensures
        same_counts(link_corners(st, vs, sides, f, i).edit.g, st.edit.g),
    decreases vs.len() - i,
{
    if 0 <= i < vs.len() {
        lemma_link_corner_keeps_counts(st, vs, sides, f, i);
        let linked = link_corner(st, vs, sides, f, i);
        if linked.edit.err is None {
            lemma_link_corners_keep_counts(linked, vs, sides, f, i + 1);
        }
    }
}

/// Making the missing sides adds two halfedges for each, and nothing else.
pub proof fn lemma_create_sides_counts(
    e: Edit,
    vs: Seq<VertexId>,
    existing: Seq<Option<HalfedgeId>>,
    keys: Seq<(HalfedgeId, HalfedgeId)>,
    i: int,
)
    requires
        e.err is None,
        existing.len() == vs.len(),
    ensures
        e.create_sides(vs, existing, keys, i).err is None,
        e.create_sides(vs, existing, keys, i).g.n_vertices == e.g.n_vertices,
        e.create_sides(vs, existing, keys, i).g.n_faces == e.g.n_faces,
        e.create_sides(vs, existing, keys, i).g.vertices == e.g.vertices,
        e.create_sides(vs, existing, keys, i).g.faces == e.g.faces,
        e.create_sides(vs, existing, keys, i).g.n_halfedges == e.g.n_halfedges + 2 * new_side_count(
            existing,
            i,
        ),
    decreases vs.len() - i,
{
    if 0 <= i < vs.len() {
        let step = match existing[i] {
            Some(_) => e,
            None => e.add_edge(
                vs[i],
                vs[crate::face_plan::next_index(i, vs.len() as int)],
                keys[i].0,
                keys[i].1,
            ),
        };
        lemma_create_sides_counts(step, vs, existing, keys, i + 1);
    }
}

impl Graph {
    /// What the construction of a face adds: no vertex; where it fails
    /// before it changes anything, nothing; else one face and two halfedges
    /// for each side that was not there.
    pub proof fn lemma_made_face_counts(self, vs: Seq<VertexId>, after: Graph, r: SMeshResult<FaceId>)
        requires
            self.made_face(vs, after, r),
        ensures
            after.n_vertices == self.n_vertices,
            after.vertices.dom() == self.vertices.dom(),
            match self.face_plan(vs) {
                Err(_) => after == self && r is Err,
                Ok(plan) => after.n_faces == self.n_faces + 1 && after.n_halfedges
                    == self.n_halfedges + 2 * new_side_count(plan.existing, 0),
            },
    {
        match self.face_plan(vs) {
            Err(_) => {},
            Ok(plan) => {
                let (keys, f) = choose|keys: Seq<(HalfedgeId, HalfedgeId)>, f: FaceId| #[trigger]
                    self.face_built(vs, plan, keys, f, after, r);
                self.lemma_face_plan_len(vs);
                lemma_build_face_counts(self, vs, plan, keys, f);
            },
        }
    }

    /// A plan has one entry for each side.
    pub proof fn lemma_face_plan_len(self, vs: Seq<VertexId>)
        ensures
            match self.face_plan(vs) {
                Ok(plan) => plan.existing.len() == vs.len() && vs.len() >= 3,
                Err(_) => true,
            },
    {
        self.lemma_scan_sides_len(vs, 0, Seq::empty());
    }

    proof fn lemma_scan_sides_len(self, vs: Seq<VertexId>, i: int, acc: Seq<Option<HalfedgeId>>)
        requires
            0 <= i <= vs.len(),
            acc.len() == i,
        ensures
            match self.scan_sides(vs, i, acc) {
                Ok(sides) => sides.len() == vs.len(),
                Err(_) => true,
            },
        decreases vs.len() - i,
    {
        if i < vs.len() {
            match self.face_side(vs[i], vs[crate::face_plan::next_index(i, vs.len() as int)]) {
                Ok(side) => {
                    self.lemma_scan_sides_len(vs, i + 1, acc.push(side));
                },
                Err(_) => {},
            }
        }
    }
}

/// What building a planned face adds.
pub proof fn lemma_build_face_counts(
    g: Graph,
    vs: Seq<VertexId>,
    plan: FacePlan,
    keys: Seq<(HalfedgeId, HalfedgeId)>,
    f: FaceId,
)
    requires
        plan.existing.len() == vs.len(),
        !g.faces.contains_key(f),
    ensures
        g.build_face(vs, plan, keys, f).g.n_vertices == g.n_vertices,
        g.build_face(vs, plan, keys, f).g.vertices.dom() == g.vertices.dom(),
        g.build_face(vs, plan, keys, f).g.n_faces == g.n_faces + 1,
        g.build_face(vs, plan, keys, f).g.n_halfedges == g.n_halfedges + 2 * new_side_count(
            plan.existing,
            0,
        ),
{
    let sides = crate::face_plan::face_sides(plan.existing, keys);
    let e1 = Edit::of(g).create_sides(vs, plan.existing, keys, 0);
    lemma_create_sides_counts(Edit::of(g), vs, plan.existing, keys, 0);
    let e2 = e1.add_face_record(f, Some(sides[vs.len() - 1].0));
    let st0 = LinkState { edit: e2, cache: plan.relinks, adjust: Seq::empty() };
    let st = link_corners(st0, vs, sides, f, 0);
    lemma_link_corners_keep_counts(st0, vs, sides, f, 0);
    lemma_apply_links_keeps_counts(st.edit, st.cache, 0);
    lemma_adjust_all_keeps_counts(st.edit.apply_links(st.cache, 0), st.adjust, 0);
}

} // verus!
