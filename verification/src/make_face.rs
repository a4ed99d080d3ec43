use vstd::prelude::*;
use crate::connectivity::Connectivity;
use crate::edit::Edit;
use crate::error::{SMeshError, SMeshResult};
use crate::face_plan::{
    face_sides, fresh_sides, link_corners, link_face, FacePlan, LinkState,
};
use crate::graph::Graph;
use crate::mesh::SMesh;
use crate::mesh_elements::{Face, FaceId, HalfedgeId, VertexId};

verus! {

impl Graph {
    /// Building the planned face under some fresh identifiers gives the
    /// graph `after` and the result `r`.
    pub open spec fn face_built_somehow(
        self,
        vs: Seq<VertexId>,
        plan: FacePlan,
        after: Graph,
        r: SMeshResult<FaceId>,
    ) -> bool {
        exists|keys: Seq<(HalfedgeId, HalfedgeId)>, f: FaceId| #[trigger]
            self.face_built(vs, plan, keys, f, after, r)
    }

    /// The graph `after` and the result `r` are what the construction of a
    /// face over `vs` makes of this graph. Where no plan can be made the
    /// graph stays as it is and the result is the reason. Else the sides
    /// that are missing and the face are added under fresh identifiers and
    /// linked in.
    pub open spec fn made_face(self, vs: Seq<VertexId>, after: Graph, r: SMeshResult<FaceId>) -> bool {
        match self.face_plan(vs) {
            Err(e) => r == Err::<FaceId, SMeshError>(e) && after == self,
            Ok(plan) => self.face_built_somehow(vs, plan, after, r),
        }
    }
}

impl Connectivity {
    fn face_side(&self, v0: VertexId, v1: VertexId) -> (r: SMeshResult<Option<HalfedgeId>>)
        ensures
            r == self@.face_side(v0, v1),
    {
        let _ = self.vert(v0)?;
        if !self.vertex_is_boundary(v0) {
            return Err(SMeshError::TopologyError);
        }
        match self.halfedge_to(v0, v1) {
            Ok(h) => {
                if self.he_is_boundary(h) {
                    Ok(Some(h))
                } else {
                    Err(SMeshError::TopologyError)
                }
            },
            Err(_) => Ok(None),
        }
    }

    fn scan_sides(&self, vs: &Vec<VertexId>) -> (r: SMeshResult<Vec<Option<HalfedgeId>>>)
        ensures
            match r {
                Ok(sides) => self@.scan_sides(vs@, 0, Seq::empty()) == Ok::<
                    Seq<Option<HalfedgeId>>,
                    SMeshError,
                >(sides@) && sides@.len() == vs@.len(),
                Err(e) => self@.scan_sides(vs@, 0, Seq::empty()) == Err::<
                    Seq<Option<HalfedgeId>>,
                    SMeshError,
                >(e),
            },
    {
        let n = vs.len();
        let mut acc: Vec<Option<HalfedgeId>> = Vec::new();
        let mut i: usize = 0;
        while i < n
            invariant
                n == vs@.len(),
                0 <= i <= n,
                acc@.len() == i,
                self@.scan_sides(vs@, 0, Seq::empty()) == self@.scan_sides(vs@, i as int, acc@),
            decreases n - i,
        {
            let j = if i + 1 >= n {
                0
            } else {
                i + 1
            };
            let side = self.face_side(vs[i], vs[j])?;
            acc.push(side);
            i += 1;
        }
        Ok(acc)
    }

    fn find_gap(&self, inner_prev: HalfedgeId, start: HalfedgeId) -> (r: SMeshResult<HalfedgeId>)
        ensures
            r == self@.find_gap(inner_prev, start, self@.n_halfedges),
    {
        let n = self.n_halfedges();
        let mut cur = start;
        let mut left: usize = n;
        while left > 0
            invariant
                left <= n,
                n == self@.n_halfedges,
                self@.find_gap(inner_prev, start, n as nat) == self@.find_gap(
                    inner_prev,
                    cur,
                    left as nat,
                ),
            decreases left,
        {
            let nx = self.he_next(cur)?;
            let b = self.he_opposite(nx)?;
            if self.he_is_boundary(b) || b == inner_prev {
                return Ok(b);
            }
            cur = b;
            left = left - 1;
        }
        Err(SMeshError::TopologyError)
    }

    fn relink(&self, inner_prev: HalfedgeId, inner_next: HalfedgeId) -> (r: SMeshResult<
        Vec<(HalfedgeId, HalfedgeId)>,
    >)
        ensures
            match r {
                Ok(links) => self@.relink(inner_prev, inner_next) == Ok::<
                    Seq<(HalfedgeId, HalfedgeId)>,
                    SMeshError,
                >(links@),
                Err(e) => self@.relink(inner_prev, inner_next) == Err::<
                    Seq<(HalfedgeId, HalfedgeId)>,
                    SMeshError,
                >(e),
            },
    {
        let outer_prev = self.he_opposite(inner_next)?;
        let boundary_prev = self.find_gap(inner_prev, outer_prev)?;
        let boundary_next = self.he_next(boundary_prev)?;
        if !self.he_is_boundary(boundary_prev) || !self.he_is_boundary(boundary_next)
            || boundary_next == inner_next {
            return Err(SMeshError::TopologyError);
        }
        let patch_start = self.he_next(inner_prev)?;
        let patch_end = self.he_prev(inner_next)?;
        let mut links: Vec<(HalfedgeId, HalfedgeId)> = Vec::new();
        links.push((boundary_prev, patch_start));
        links.push((patch_end, boundary_next));
        links.push((inner_prev, inner_next));
        proof {
            assert(links@ =~= seq![
                (boundary_prev, patch_start),
                (patch_end, boundary_next),
                (inner_prev, inner_next),
            ]);
        }
        Ok(links)
    }

    fn scan_relinks(&self, existing: &Vec<Option<HalfedgeId>>) -> (r: SMeshResult<
        Vec<(HalfedgeId, HalfedgeId)>,
    >)
        ensures
            match r {
                Ok(links) => self@.scan_relinks(existing@, 0, Seq::empty()) == Ok::<
                    Seq<(HalfedgeId, HalfedgeId)>,
                    SMeshError,
                >(links@),
                Err(e) => self@.scan_relinks(existing@, 0, Seq::empty()) == Err::<
                    Seq<(HalfedgeId, HalfedgeId)>,
                    SMeshError,
                >(e),
            },
    {
        let n = existing.len();
        let mut acc: Vec<(HalfedgeId, HalfedgeId)> = Vec::new();
        let mut i: usize = 0;
        while i < n
            invariant
                n == existing@.len(),
                0 <= i <= n,
                self@.scan_relinks(existing@, 0, Seq::empty()) == self@.scan_relinks(
                    existing@,
                    i as int,
                    acc@,
                ),
            decreases n - i,
        {
            let j = if i + 1 >= n {
                0
            } else {
                i + 1
            };
            let ghost before = acc@;
            match (existing[i], existing[j]) {
                (Some(inner_prev), Some(inner_next)) => {
                    let nx = self.he_next(inner_prev)?;
                    if nx != inner_next {
                        let mut links = self.relink(inner_prev, inner_next)?;
                        let ghost added = links@;
                        acc.append(&mut links);
                        proof {
                            assert(acc@ =~= before + added);
                        }
                    } else {
                        proof {
                            assert(acc@ =~= before + Seq::<(HalfedgeId, HalfedgeId)>::empty());
                        }
                    }
                },
                _ => {
                    proof {
                        assert(acc@ =~= before + Seq::<(HalfedgeId, HalfedgeId)>::empty());
                    }
                },
            }
            i += 1;
        }
        Ok(acc)
    }

    /// The plan for a face over the given vertices. Nothing is changed.
    fn face_plan(&self, vs: &Vec<VertexId>) -> (r: SMeshResult<
        (Vec<Option<HalfedgeId>>, Vec<(HalfedgeId, HalfedgeId)>),
    >)
        ensures
            match r {
                Ok(plan) => self@.face_plan(vs@) == Ok::<FacePlan, SMeshError>(
                    FacePlan { existing: plan.0@, relinks: plan.1@ },
                ) && plan.0@.len() == vs@.len(),
                Err(e) => self@.face_plan(vs@) == Err::<FacePlan, SMeshError>(e),
            },
    {
        if vs.len() < 3 {
            return Err(SMeshError::DefaultError);
        }
        let existing = self.scan_sides(vs)?;
        let relinks = self.scan_relinks(&existing)?;
        Ok((existing, relinks))
    }

    fn create_sides(&mut self, vs: &Vec<VertexId>, existing: &Vec<Option<HalfedgeId>>) -> (r: (
        Vec<(HalfedgeId, bool)>,
        Ghost<Seq<(HalfedgeId, HalfedgeId)>>,
    ))
        requires
            existing@.len() == vs@.len(),
            old(self).room().halfedges >= 2 * vs@.len(),
        ensures
            fresh_sides(old(self)@, existing@, r.1@),
            r.0@ == face_sides(existing@, r.1@),
            Edit::of(final(self)@) == Edit::of(old(self)@).create_sides(vs@, existing@, r.1@, 0),
            final(self).room().within(old(self).room(), 0, 2 * (vs@.len() as int), 0),
            final(self)@.faces == old(self)@.faces,
    {
        let n = vs.len();
        let mut sides: Vec<(HalfedgeId, bool)> = Vec::new();
        let ghost mut keys: Seq<(HalfedgeId, HalfedgeId)> = Seq::empty();
        let ghost mut rest: Seq<(HalfedgeId, HalfedgeId)> = Seq::new(
            n as nat,
            |k: int| arbitrary(),
        );
        let mut i: usize = 0;
        while i < n
            invariant
                n == vs@.len(),
                n == existing@.len(),
                0 <= i <= n,
                sides@.len() == i,
                keys.len() == i,
                forall|k: int|
                    0 <= k < i ==> #[trigger] sides@[k] == (match existing@[k] {
                        Some(h) => (h, false),
                        None => (keys[k].0, true),
                    }),
                forall|k: int|
                    0 <= k < i && existing@[k] is None ==> !old(self)@.halfedges.contains_key(
                        (#[trigger] keys[k]).0,
                    ) && !old(self)@.halfedges.contains_key(keys[k].1) && keys[k].0 != keys[k].1
                        && self@.halfedges.contains_key(keys[k].0) && self@.halfedges.contains_key(
                        keys[k].1,
                    ),
                forall|k: int, l: int|
                    0 <= k < l < i && existing@[k] is None && existing@[l] is None ==> (
                    #[trigger] keys[k]).0 != (#[trigger] keys[l]).0 && keys[k].0 != keys[l].1
                        && keys[k].1 != keys[l].0 && keys[k].1 != keys[l].1,
                forall|h: HalfedgeId|
                    old(self)@.halfedges.contains_key(h) ==> self@.halfedges.contains_key(h),
                self.room().within(old(self).room(), 0, 2 * (i as int), 0),
                old(self).room().halfedges >= 2 * n,
                self@.faces == old(self)@.faces,
                forall|all: Seq<(HalfedgeId, HalfedgeId)>|
                    all.len() == n && (forall|k: int| 0 <= k < i ==> all[k] == keys[k]) ==> Edit::of(
                        old(self)@,
                    ).create_sides(vs@, existing@, all, 0) == #[trigger] Edit::of(self@).create_sides(
                        vs@,
                        existing@,
                        all,
                        i as int,
                    ),
            decreases n - i,
        {
            let j = if i + 1 >= n {
                0
            } else {
                i + 1
            };
            let ghost g_before = self@;
            match existing[i] {
                Some(h) => {
                    sides.push((h, false));
                    proof {
                        keys = keys.push((h, h));
                    }
                },
                None => {
                    let hs = self.add_edge(vs[i], vs[j]);
                    sides.push((hs.0, true));
                    proof {
                        keys = keys.push(hs);
                    }
                },
            }
            proof {
                assert forall|all: Seq<(HalfedgeId, HalfedgeId)>|
                    all.len() == n && (forall|k: int|
                        0 <= k < i + 1 ==> all[k] == keys[k]) implies Edit::of(
                    old(self)@,
                ).create_sides(vs@, existing@, all, 0) == #[trigger] Edit::of(self@).create_sides(
                    vs@,
                    existing@,
                    all,
                    i + 1,
                ) by {
                    assert(forall|k: int| 0 <= k < i ==> all[k] == keys[k]);
                    assert(Edit::of(old(self)@).create_sides(vs@, existing@, all, 0) == Edit::of(
                        g_before,
                    ).create_sides(vs@, existing@, all, i as int));
                    assert(all[i as int] == keys[i as int]);
                }
            }
            i += 1;
        }
        proof {
            assert(sides@ =~= face_sides(existing@, keys));
            assert(Edit::of(self@).create_sides(vs@, existing@, keys, n as int) == Edit::of(self@));
        }
        (sides, Ghost(keys))
    }

    fn link_face(
        &mut self,
        vs: &Vec<VertexId>,
        sides: &Vec<(HalfedgeId, bool)>,
        f: FaceId,
        relinks: Vec<(HalfedgeId, HalfedgeId)>,
    ) -> (r: SMeshResult<()>)
        requires
            sides@.len() == vs@.len(),
        ensures
            Edit::after(final(self)@, r) == link_face(
                Edit::of(old(self)@),
                vs@,
                sides@,
                f,
                relinks@,
            ),
            final(self).room() == old(self).room(),
    {
        let n = vs.len();
        let mut cache = relinks;
        let mut adjust: Vec<VertexId> = Vec::new();
        let ghost st0 = LinkState {
            edit: Edit::of(old(self)@),
            cache: relinks@,
            adjust: Seq::empty(),
        };
        let mut i: usize = 0;
        while i < n
            invariant
                n == vs@.len(),
                n == sides@.len(),
                0 <= i <= n,
                st0 == (LinkState {
                    edit: Edit::of(old(self)@),
                    cache: relinks@,
                    adjust: Seq::empty(),
                }),
                link_corners(st0, vs@, sides@, f, 0) == link_corners(
                    LinkState { edit: Edit::of(self@), cache: cache@, adjust: adjust@ },
                    vs@,
                    sides@,
                    f,
                    i as int,
                ),
                self.room() == old(self).room(),
            decreases n - i,
        {
            let ii = if i + 1 >= n {
                0
            } else {
                i + 1
            };
            let v = vs[ii];
            let inner_prev = sides[i].0;
            let prev_new = sides[i].1;
            let inner_next = sides[ii].0;
            let next_new = sides[ii].1;
            if prev_new || next_new {
                let outer_prev = self.he_opposite(inner_next)?;
                let outer_next = self.he_opposite(inner_prev)?;
                if prev_new && !next_new {
                    let boundary_prev = self.he_prev(inner_next)?;
                    cache.push((boundary_prev, outer_next));
                    self.set_vertex_halfedge(v, Some(outer_next))?;
                } else if !prev_new && next_new {
                    let boundary_next = self.he_next(inner_prev)?;
                    cache.push((outer_prev, boundary_next));
                    self.set_vertex_halfedge(v, Some(boundary_next))?;
                } else {
                    match self.vertex_halfedge(v) {
                        Ok(boundary_next) => {
                            let boundary_prev = self.he_prev(boundary_next)?;
                            cache.push((boundary_prev, outer_next));
                            cache.push((outer_prev, boundary_next));
                        },
                        Err(_) => {
                            self.set_vertex_halfedge(v, Some(outer_next))?;
                            cache.push((outer_prev, outer_next));
                        },
                    }
                }
                cache.push((inner_prev, inner_next));
            } else {
                let h = self.vertex_halfedge(v)?;
                if h == inner_next {
                    adjust.push(v);
                }
            }
            self.set_face(inner_prev, Some(f))?;
            i += 1;
        }
        let ghost st1 = LinkState { edit: Edit::of(self@), cache: cache@, adjust: adjust@ };
        let mut k: usize = 0;
        while k < cache.len()
            invariant
                0 <= k <= cache@.len(),
                st1.edit.err is None,
                st1.cache == cache@,
                st1.adjust == adjust@,
                st1 == link_corners(
                    LinkState { edit: Edit::of(old(self)@), cache: relinks@, adjust: Seq::empty() },
                    vs@,
                    sides@,
                    f,
                    0,
                ),
                st1.edit.apply_links(cache@, 0) == Edit::of(self@).apply_links(cache@, k as int),
                self.room() == old(self).room(),
            decreases cache@.len() - k,
        {
            self.set_next(cache[k].0, Some(cache[k].1))?;
            k += 1;
        }
        let mut k: usize = 0;
        while k < adjust.len()
            invariant
                0 <= k <= adjust@.len(),
                st1.cache == cache@,
                st1.adjust == adjust@,
                st1 == link_corners(
                    LinkState { edit: Edit::of(old(self)@), cache: relinks@, adjust: Seq::empty() },
                    vs@,
                    sides@,
                    f,
                    0,
                ),
                st1.edit.apply_links(cache@, 0).adjust_all(adjust@, 0) == Edit::of(self@).adjust_all(
                    adjust@,
                    k as int,
                ),
                self.room() == old(self).room(),
            decreases adjust@.len() - k,
        {
            self.adjust_outgoing_halfedge(adjust[k])?;
            k += 1;
        }
        Ok(())
    }

    /// Constructs a face over the given vertices, in their order. A side
    /// that is already there as a boundary halfedge is used, any other is
    /// made. Nothing is changed unless a plan could be made for all sides
    /// and corners.
    pub fn make_face(&mut self, vertices: Vec<VertexId>) -> (r: SMeshResult<FaceId>)
        requires
            old(self).room().covers(0, 2 * (vertices@.len() as int), 1),
        ensures
            old(self)@.paired() ==> final(self)@.paired(),
            old(self)@.made_face(vertices@, final(self)@, r),
            final(self).room().within(old(self).room(), 0, 2 * (vertices@.len() as int), 1),
            old(self)@.in_order() && vertices@.no_duplicates() && r is Ok
                ==> final(self)@.face_vertices(r->Ok_0) == vertices@,
            old(self)@.in_order() && vertices@.no_duplicates() && r is Ok ==> final(self)@.in_order(),
    {
        let plan = self.face_plan(&vertices)?;
        let existing = plan.0;
        let relinks = plan.1;
        let ghost spec_plan = FacePlan { existing: existing@, relinks: relinks@ };
        let created = self.create_sides(&vertices, &existing);
        let sides = created.0;
        let ghost keys = created.1@;
        let f = self.insert_face(Face { halfedge: Some(sides[vertices.len() - 1].0) });
        let linked = self.link_face(&vertices, &sides, f, relinks);
        let r = match linked {
            Ok(()) => Ok(f),
            Err(e) => Err(e),
        };
        proof {
            assert(old(self)@.face_built(vertices@, spec_plan, keys, f, self@, r));
            assert(old(self)@.face_built_somehow(vertices@, spec_plan, self@, r));
            if old(self)@.paired() {
                old(self)@.law_make_face_keeps_pairs(vertices@, self@, r);
            }
            if old(self)@.in_order() && vertices@.no_duplicates() && r is Ok {
                old(self)@.law_face_ring(vertices@, self@, r);
                old(self)@.law_face_keeps_order(vertices@, self@, r);
            }
        }
        r
    }
}

impl SMesh {
    /// Constructs a face over the given vertices, in their order. A side
    /// that is already there as a boundary halfedge is used, any other is
    /// made. Nothing is changed unless a plan could be made for all sides
    /// and corners.
    pub fn make_face(&mut self, vertices: Vec<VertexId>) -> (r: SMeshResult<FaceId>)
        requires
            old(self).room().covers(0, 2 * (vertices@.len() as int), 1),
        ensures
            old(self).graph().paired() ==> final(self).graph().paired(),
            old(self).graph().made_face(vertices@, final(self).graph(), r),
            final(self).attributes() == old(self).attributes(),
            final(self).room().within(old(self).room(), 0, 2 * (vertices@.len() as int), 1),
            old(self).graph().in_order() && vertices@.no_duplicates() && r is Ok
                ==> final(self).graph().face_vertices(r->Ok_0) == vertices@,
            old(self).graph().in_order() && vertices@.no_duplicates() && r is Ok
                ==> final(self).graph().in_order(),
    {
        self.connectivity.make_face(vertices)
    }

    /// Constructs a triangle.
    pub fn make_triangle(&mut self, v0: VertexId, v1: VertexId, v2: VertexId) -> (r: SMeshResult<
        FaceId,
    >)
        requires
            old(self).room().covers(0, 6, 1),
        ensures
            old(self).graph().paired() ==> final(self).graph().paired(),
            old(self).graph().made_face(seq![v0, v1, v2], final(self).graph(), r),
            final(self).attributes() == old(self).attributes(),
            final(self).room().within(old(self).room(), 0, 6, 1),
    {
        let mut vertices: Vec<VertexId> = Vec::new();
        vertices.push(v0);
        vertices.push(v1);
        vertices.push(v2);
        proof {
            assert(vertices@ =~= seq![v0, v1, v2]);
        }
        self.make_face(vertices)
    }

    /// Constructs a quad.
    pub fn make_quad(&mut self, v0: VertexId, v1: VertexId, v2: VertexId, v3: VertexId) -> (r:
        SMeshResult<FaceId>)
        requires
            old(self).room().covers(0, 8, 1),
        ensures
            old(self).graph().paired() ==> final(self).graph().paired(),
            old(self).graph().made_face(seq![v0, v1, v2, v3], final(self).graph(), r),
            final(self).attributes() == old(self).attributes(),
            final(self).room().within(old(self).room(), 0, 8, 1),
    {
        let mut vertices: Vec<VertexId> = Vec::new();
        vertices.push(v0);
        vertices.push(v1);
        vertices.push(v2);
        vertices.push(v3);
        proof {
            assert(vertices@ =~= seq![v0, v1, v2, v3]);
        }
        self.make_face(vertices)
    }

    /// Constructs a face over the given vertices: `make_face` under its
    /// other name.
    pub fn add_face(&mut self, vertices: Vec<VertexId>) -> (r: SMeshResult<FaceId>)
        requires
            old(self).room().covers(0, 2 * (vertices@.len() as int), 1),
        ensures
            old(self).graph().paired() ==> final(self).graph().paired(),
            old(self).graph().made_face(vertices@, final(self).graph(), r),
            final(self).attributes() == old(self).attributes(),
            final(self).room().within(old(self).room(), 0, 2 * (vertices@.len() as int), 1),
            old(self).graph().in_order() && vertices@.no_duplicates() && r is Ok
                ==> final(self).graph().face_vertices(r->Ok_0) == vertices@,
            old(self).graph().in_order() && vertices@.no_duplicates() && r is Ok
                ==> final(self).graph().in_order(),
    {
        self.make_face(vertices)
    }

    /// Constructs a triangle: `make_triangle` under its other name.
    pub fn add_triangle(&mut self, v0: VertexId, v1: VertexId, v2: VertexId) -> (r: SMeshResult<
        FaceId,
    >)
        requires
            old(self).room().covers(0, 6, 1),
        ensures
            old(self).graph().paired() ==> final(self).graph().paired(),
            old(self).graph().made_face(seq![v0, v1, v2], final(self).graph(), r),
            final(self).attributes() == old(self).attributes(),
            final(self).room().within(old(self).room(), 0, 6, 1),
    {
        self.make_triangle(v0, v1, v2)
    }

    /// Constructs a quad: `make_quad` under its other name.
    pub fn add_quad(&mut self, v0: VertexId, v1: VertexId, v2: VertexId, v3: VertexId) -> (r:
        SMeshResult<FaceId>)
        requires
            old(self).room().covers(0, 8, 1),
        ensures
            old(self).graph().paired() ==> final(self).graph().paired(),
            old(self).graph().made_face(seq![v0, v1, v2, v3], final(self).graph(), r),
            final(self).attributes() == old(self).attributes(),
            final(self).room().within(old(self).room(), 0, 8, 1),
    {
        self.make_quad(v0, v1, v2, v3)
    }
}

} // verus!
