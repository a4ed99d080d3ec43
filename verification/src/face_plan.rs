use vstd::prelude::*;
use crate::edit::Edit;
use crate::error::{SMeshError, SMeshResult};
use crate::graph::Graph;
use crate::mesh_elements::{FaceId, HalfedgeId, VertexId};

verus! {

/// The index after `i` on a circle of `n` places.
pub open spec fn next_index(i: int, n: int) -> int {
    if i + 1 >= n {
        0
    } else {
        i + 1
    }
}

/// What the construction of a face has found out before it changes
/// anything: for each side, the boundary halfedge that is already there, if
/// any; and the links that splice existing boundary patches out of the way.
pub struct FacePlan {
    pub existing: Seq<Option<HalfedgeId>>,
    pub relinks: Seq<(HalfedgeId, HalfedgeId)>,
}

/// The state of the linking pass over the corners of a new face: the edit so
/// far, the `next` links still to be made, and the vertices whose outgoing
/// halfedge may have become an inner one.
pub struct LinkState {
    pub edit: Edit,
    pub cache: Seq<(HalfedgeId, HalfedgeId)>,
    pub adjust: Seq<VertexId>,
}

impl LinkState {
    pub open spec fn fail(self, e: SMeshError) -> LinkState {
        LinkState { edit: self.edit.fail(e), ..self }
    }

    /// Notes that `b` is to follow `a`.
    pub open spec fn link(self, a: HalfedgeId, b: HalfedgeId) -> LinkState {
        LinkState { cache: self.cache.push((a, b)), ..self }
    }

    /// Notes that the outgoing halfedge of `v` is to be adjusted.
    pub open spec fn mark(self, v: VertexId) -> LinkState {
        LinkState { adjust: self.adjust.push(v), ..self }
    }

    pub open spec fn set_vertex_halfedge(self, v: VertexId, h: Option<HalfedgeId>) -> LinkState {
        LinkState { edit: self.edit.set_vertex_halfedge(v, h), ..self }
    }

    pub open spec fn set_face(self, h: HalfedgeId, f: Option<FaceId>) -> LinkState {
        LinkState { edit: self.edit.set_face(h, f), ..self }
    }
}

impl Graph {
    /// What the side from `v0` to `v1` of a new face finds: an error if `v0`
    /// is not a live boundary vertex or the edge is already used on this
    /// side, else the boundary halfedge that is there, if any.
    pub open spec fn face_side(self, v0: VertexId, v1: VertexId) -> SMeshResult<Option<HalfedgeId>> {
        if !self.vertices.contains_key(v0) {
            Err(SMeshError::VertexNotFound(v0))
        } else if !self.vertex_is_boundary(v0) {
            Err(SMeshError::TopologyError)
        } else {
            match self.halfedge_to(v0, v1) {
                Ok(h) => if self.he_is_boundary(h) {
                    Ok(Some(h))
                } else {
                    Err(SMeshError::TopologyError)
                },
                Err(_) => Ok(None),
            }
        }
    }

    /// The sides of a new face from the `i`-th on, after `acc`.
    pub open spec fn scan_sides(
        self,
        vs: Seq<VertexId>,
        i: int,
        acc: Seq<Option<HalfedgeId>>,
    ) -> SMeshResult<Seq<Option<HalfedgeId>>>
        decreases vs.len() - i,
    {
        if i < 0 || i >= vs.len() {
            Ok(acc)
        } else {
            match self.face_side(vs[i], vs[next_index(i, vs.len() as int)]) {
                Err(e) => Err(e),
                Ok(side) => self.scan_sides(vs, i + 1, acc.push(side)),
            }
        }
    }

    /// The search for a free gap in the rotation of a vertex: from `cur`,
    /// the next halfedge's opposite, again and again, until that is a
    /// boundary halfedge or `inner_prev`.
    pub open spec fn find_gap(
        self,
        inner_prev: HalfedgeId,
        cur: HalfedgeId,
        fuel: nat,
    ) -> SMeshResult<HalfedgeId>
        decreases fuel,
    {
        if fuel == 0 {
            Err(SMeshError::TopologyError)
        } else {
            match self.he_next(cur) {
                Err(e) => Err(e),
                Ok(n) => match self.he_opposite(n) {
                    Err(e) => Err(e),
                    Ok(b) => if self.he_is_boundary(b) || b == inner_prev {
                        Ok(b)
                    } else {
                        self.find_gap(inner_prev, b, (fuel - 1) as nat)
                    },
                },
            }
        }
    }

    /// The links that move the patch between two existing sides which do not
    /// follow each other yet into a free gap of their vertex.
    pub open spec fn relink(
        self,
        inner_prev: HalfedgeId,
        inner_next: HalfedgeId,
    ) -> SMeshResult<Seq<(HalfedgeId, HalfedgeId)>> {
        match self.he_opposite(inner_next) {
            Err(e) => Err(e),
            Ok(outer_prev) => match self.find_gap(inner_prev, outer_prev, self.n_halfedges) {
                Err(e) => Err(e),
                Ok(boundary_prev) => match self.he_next(boundary_prev) {
                    Err(e) => Err(e),
                    Ok(boundary_next) => if !self.he_is_boundary(boundary_prev)
                        || !self.he_is_boundary(boundary_next) || boundary_next == inner_next {
                        Err(SMeshError::TopologyError)
                    } else {
                        match self.he_next(inner_prev) {
                            Err(e) => Err(e),
                            Ok(patch_start) => match self.he_prev(inner_next) {
                                Err(e) => Err(e),
                                Ok(patch_end) => Ok(
                                    seq![
                                        (boundary_prev, patch_start),
                                        (patch_end, boundary_next),
                                        (inner_prev, inner_next),
                                    ],
                                ),
                            },
                        }
                    },
                },
            },
        }
    }

    /// The links that the corner after the `i`-th side needs.
    pub open spec fn relink_corner(
        self,
        existing: Seq<Option<HalfedgeId>>,
        i: int,
    ) -> SMeshResult<Seq<(HalfedgeId, HalfedgeId)>> {
        match (existing[i], existing[next_index(i, existing.len() as int)]) {
            (Some(inner_prev), Some(inner_next)) => match self.he_next(inner_prev) {
                Err(e) => Err(e),
                Ok(n) => if n != inner_next {
                    self.relink(inner_prev, inner_next)
                } else {
                    Ok(Seq::empty())
                },
            },
            _ => Ok(Seq::empty()),
        }
    }

    /// The links that the corners from the `i`-th on need, after `acc`.
    pub open spec fn scan_relinks(
        self,
        existing: Seq<Option<HalfedgeId>>,
        i: int,
        acc: Seq<(HalfedgeId, HalfedgeId)>,
    ) -> SMeshResult<Seq<(HalfedgeId, HalfedgeId)>>
        decreases existing.len() - i,
    {
        if i < 0 || i >= existing.len() {
            Ok(acc)
        } else {
            match self.relink_corner(existing, i) {
                Err(e) => Err(e),
                Ok(links) => self.scan_relinks(existing, i + 1, acc + links),
            }
        }
    }

    /// The plan for a face over the given vertices, or the reason why there
    /// can be none.
    pub open spec fn face_plan(self, vs: Seq<VertexId>) -> SMeshResult<FacePlan> {
        if vs.len() < 3 {
            Err(SMeshError::DefaultError)
        } else {
            match self.scan_sides(vs, 0, Seq::empty()) {
                Err(e) => Err(e),
                Ok(existing) => match self.scan_relinks(existing, 0, Seq::empty()) {
                    Err(e) => Err(e),
                    Ok(relinks) => Ok(FacePlan { existing, relinks }),
                },
            }
        }
    }
}

/// The inner halfedge of each side of a new face, and whether it is new:
/// the existing one, or the first of the pair made for the side.
pub open spec fn face_sides(
    existing: Seq<Option<HalfedgeId>>,
    keys: Seq<(HalfedgeId, HalfedgeId)>,
) -> Seq<(HalfedgeId, bool)> {
    Seq::new(
        existing.len(),
        |i: int|
            match existing[i] {
                Some(h) => (h, false),
                None => (keys[i].0, true),
            },
    )
}

/// The identifiers made for the new sides are not live before, and no two of
/// them are the same.
pub open spec fn fresh_sides(
    g: Graph,
    existing: Seq<Option<HalfedgeId>>,
    keys: Seq<(HalfedgeId, HalfedgeId)>,
) -> bool {
    &&& keys.len() == existing.len()
    &&& forall|i: int|
        0 <= i < existing.len() && existing[i] is None ==> !g.halfedges.contains_key(
            (#[trigger] keys[i]).0,
        ) && !g.halfedges.contains_key(keys[i].1) && keys[i].0 != keys[i].1
    &&& forall|i: int, j: int|
        0 <= i < j < existing.len() && existing[i] is None && existing[j] is None ==> (
        #[trigger] keys[i]).0 != (#[trigger] keys[j]).0 && keys[i].0 != keys[j].1 && keys[i].1
            != keys[j].0 && keys[i].1 != keys[j].1
}

impl Edit {
    /// Adds an edge for each side from the `i`-th on that has none.
    pub open spec fn create_sides(
        self,
        vs: Seq<VertexId>,
        existing: Seq<Option<HalfedgeId>>,
        keys: Seq<(HalfedgeId, HalfedgeId)>,
        i: int,
    ) -> Edit
        decreases vs.len() - i,
    {
        if i < 0 || i >= vs.len() {
            self
        } else {
            (match existing[i] {
                Some(_) => self,
                None => self.add_edge(
                    vs[i],
                    vs[next_index(i, vs.len() as int)],
                    keys[i].0,
                    keys[i].1,
                ),
            }).create_sides(vs, existing, keys, i + 1)
        }
    }

    /// Makes each noted link from the `k`-th on.
    pub open spec fn apply_links(self, cache: Seq<(HalfedgeId, HalfedgeId)>, k: int) -> Edit
        decreases cache.len() - k,
    {
        if k < 0 || k >= cache.len() {
            self
        } else {
            let linked = self.set_next(cache[k].0, Some(cache[k].1));
            if linked.err is Some {
                linked
            } else {
                linked.apply_links(cache, k + 1)
            }
        }
    }

    /// Adjusts the outgoing halfedge of each vertex from the `k`-th on.
    pub open spec fn adjust_all(self, vs: Seq<VertexId>, k: int) -> Edit
        decreases vs.len() - k,
    {
        if k < 0 || k >= vs.len() {
            self
        } else {
            let adjusted = self.adjust_outgoing_halfedge(vs[k]);
            if adjusted.err is Some {
                adjusted
            } else {
                adjusted.adjust_all(vs, k + 1)
            }
        }
    }
}

/// What the corner after the `i`-th side does: it notes the links that chain
/// the two sides and splice the vertex's boundary fan in, stores a boundary
/// halfedge as the vertex's outgoing one, and gives the side its face.
pub open spec fn link_corner(
    st: LinkState,
    vs: Seq<VertexId>,
    sides: Seq<(HalfedgeId, bool)>,
    f: FaceId,
    i: int,
) -> LinkState {
    let ii = next_index(i, vs.len() as int);
    let v = vs[ii];
    let inner_prev = sides[i].0;
    let prev_new = sides[i].1;
    let inner_next = sides[ii].0;
    let next_new = sides[ii].1;
    let g = st.edit.g;
    let linked = if prev_new || next_new {
        match g.he_opposite(inner_next) {
            Err(e) => st.fail(e),
            Ok(outer_prev) => match g.he_opposite(inner_prev) {
                Err(e) => st.fail(e),
                Ok(outer_next) => (if prev_new && !next_new {
                    match g.he_prev(inner_next) {
                        Err(e) => st.fail(e),
                        Ok(boundary_prev) => st.link(boundary_prev, outer_next).set_vertex_halfedge(
                            v,
                            Some(outer_next),
                        ),
                    }
                } else if !prev_new && next_new {
                    match g.he_next(inner_prev) {
                        Err(e) => st.fail(e),
                        Ok(boundary_next) => st.link(outer_prev, boundary_next).set_vertex_halfedge(
                            v,
                            Some(boundary_next),
                        ),
                    }
                } else {
                    match g.vertex_halfedge(v) {
                        Ok(boundary_next) => match g.he_prev(boundary_next) {
                            Err(e) => st.fail(e),
                            Ok(boundary_prev) => st.link(boundary_prev, outer_next).link(
                                outer_prev,
                                boundary_next,
                            ),
                        },
                        Err(_) => st.set_vertex_halfedge(v, Some(outer_next)).link(
                            outer_prev,
                            outer_next,
                        ),
                    }
                }).link(inner_prev, inner_next),
            },
        }
    } else {
        match g.vertex_halfedge(v) {
            Err(e) => st.fail(e),
            Ok(h) => if h == inner_next {
                st.mark(v)
            } else {
                st
            },
        }
    };
    linked.set_face(inner_prev, Some(f))
}

/// The corners from the `i`-th on.
pub open spec fn link_corners(
    st: LinkState,
    vs: Seq<VertexId>,
    sides: Seq<(HalfedgeId, bool)>,
    f: FaceId,
    i: int,
) -> LinkState
    decreases vs.len() - i,
{
    if i < 0 || i >= vs.len() {
        st
    } else {
        let linked = link_corner(st, vs, sides, f, i);
        if linked.edit.err is Some {
            linked
        } else {
            link_corners(linked, vs, sides, f, i + 1)
        }
    }
}

/// The linking of a face whose sides and record are there: the pass over
/// the corners, then the noted links, then the noted adjustments.
pub open spec fn link_face(
    edit: Edit,
    vs: Seq<VertexId>,
    sides: Seq<(HalfedgeId, bool)>,
    f: FaceId,
    relinks: Seq<(HalfedgeId, HalfedgeId)>,
) -> Edit {
    let st = link_corners(LinkState { edit, cache: relinks, adjust: Seq::empty() }, vs, sides, f, 0);
    st.edit.apply_links(st.cache, 0).adjust_all(st.adjust, 0)
}

impl Graph {
    /// What building the planned face does to the graph, with `keys[i]` as
    /// the identifiers of the halfedges made for the `i`-th side, if it
    /// needs any, and `f` as the identifier of the face.
    pub open spec fn build_face(
        self,
        vs: Seq<VertexId>,
        plan: FacePlan,
        keys: Seq<(HalfedgeId, HalfedgeId)>,
        f: FaceId,
    ) -> Edit {
        let sides = face_sides(plan.existing, keys);
        link_face(
            Edit::of(self).create_sides(vs, plan.existing, keys, 0).add_face_record(
                f,
                Some(sides[vs.len() - 1].0),
            ),
            vs,
            sides,
            f,
            plan.relinks,
        )
    }

    /// The graph `after` and the result `r` are what building the planned
    /// face under fresh identifiers gives.
    pub open spec fn face_built(
        self,
        vs: Seq<VertexId>,
        plan: FacePlan,
        keys: Seq<(HalfedgeId, HalfedgeId)>,
        f: FaceId,
        after: Graph,
        r: SMeshResult<FaceId>,
    ) -> bool {
        &&& fresh_sides(self, plan.existing, keys)
        &&& !self.faces.contains_key(f)
        &&& Edit::after(after, r) == self.build_face(vs, plan, keys, f)
        &&& (r is Ok ==> r == Ok::<FaceId, SMeshError>(f))
    }
}

} // verus!
