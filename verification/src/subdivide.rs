use vstd::prelude::*;
use crate::attribute::Point3;
use crate::edit::Edit;
use crate::error::{SMeshError, SMeshResult};
use crate::face_plan::next_index;
use crate::graph::{Graph, Turn};
use crate::mesh::SMesh;
use crate::mesh_elements::{FaceId, HalfedgeId, VertexId};
use crate::selection::{has_halfedge, seq_add, MeshSelection, MeshSelectionOps, Picks};
use crate::world::World;

verus! {

/// The longest loop of halfedges that a subdivision walks.
pub const MAX_LOOP: usize = 101;

/// A vertex that a subdivision has made, and the vertices at the mean of
/// whose positions it belongs. The subdivision itself puts it at the
/// position of the first of them.
pub struct Placement {
    pub vertex: VertexId,
    pub among: Vec<VertexId>,
}

impl View for Placement {
    type V = (VertexId, Seq<VertexId>);

    open spec fn view(&self) -> (VertexId, Seq<VertexId>) {
        (self.vertex, self.among@)
    }
}

/// What a subdivision hands back: the halfedges and faces that it has made
/// or split, as a selection, and the vertices that it has made.
pub struct Subdivision {
    pub selection: MeshSelection,
    pub placements: Vec<Placement>,
}

/// The placements as values.
pub open spec fn placements_view(ps: Seq<Placement>) -> Seq<(VertexId, Seq<VertexId>)> {
    Seq::new(ps.len(), |i: int| ps[i]@)
}

/// What a subdivision has gathered so far.
pub struct Harvest {
    /// The halfedges that are split already, and their opposites.
    pub done: Seq<HalfedgeId>,
    pub picks: Picks,
    pub placements: Seq<(VertexId, Seq<VertexId>)>,
}

impl Harvest {
    pub open spec fn empty() -> Harvest {
        Harvest {
            done: Seq::empty(),
            picks: Picks { vertices: Seq::empty(), halfedges: Seq::empty(), faces: Seq::empty() },
            placements: Seq::empty(),
        }
    }

    /// After the halfedge `h` with the opposite `o` was split at the new
    /// vertex `v` between `src` and `dst`, which made the halfedge `nh` with
    /// the opposite `no`.
    pub open spec fn with_split(
        self,
        h: HalfedgeId,
        o: HalfedgeId,
        nh: HalfedgeId,
        no: HalfedgeId,
        v: VertexId,
        src: VertexId,
        dst: VertexId,
    ) -> Harvest {
        Harvest {
            done: seq_add(seq_add(self.done, h), o),
            picks: Picks {
                halfedges: seq_add(seq_add(seq_add(seq_add(self.picks.halfedges, h), o), nh), no),
                ..self.picks
            },
            placements: self.placements.push((v, seq![src, dst])),
        }
    }

    pub open spec fn with_face(self, f: FaceId) -> Harvest {
        Harvest { picks: Picks { faces: seq_add(self.picks.faces, f), ..self.picks }, ..self }
    }

    pub open spec fn with_centre(self, v: VertexId, among: Seq<VertexId>) -> Harvest {
        Harvest { placements: self.placements.push((v, among)), ..self }
    }
}

/// What the split of one halfedge reads before it changes anything.
pub struct SplitSite {
    pub opposite: HalfedgeId,
    pub src: VertexId,
    pub dst: VertexId,
    pub at: Point3,
}

impl World {
    /// What the split of the halfedge `h` reads, or the reason why it cannot
    /// start.
    pub open spec fn split_site(self, h: HalfedgeId) -> SMeshResult<SplitSite> {
        match self.g.he_opposite(h) {
            Err(e) => Err(e),
            Ok(opposite) => match self.g.src_vertex(h) {
                Err(e) => Err(e),
                Ok(src) => match self.position(src) {
                    Err(e) => Err(e),
                    Ok(at) => match self.g.he_vertex(h) {
                        Err(e) => Err(e),
                        Ok(dst) => match self.position(dst) {
                            Err(e) => Err(e),
                            Ok(_) => Ok(SplitSite { opposite, src, dst, at }),
                        },
                    },
                },
            },
        }
    }

    /// One split of the halfedge `h` under the identifier `v` of the new
    /// vertex: the vertex is added at the position of the source, and the
    /// insertion of it into the edge leaves the graph `mid` and gives `rh`.
    pub open spec fn split_step(
        self,
        h: HalfedgeId,
        v: VertexId,
        mid: Graph,
        rh: SMeshResult<HalfedgeId>,
    ) -> bool {
        match self.split_site(h) {
            Err(_) => false,
            Ok(site) => !self.g.vertices.contains_key(v) && self.g.vertex_free(v) && self.added(
                site.at,
                v,
            ).g.inserted_vertex(h, v, mid, rh),
        }
    }

    /// The world after one split.
    pub open spec fn split_world(self, h: HalfedgeId, v: VertexId, mid: Graph) -> World {
        World { g: mid, a: self.added(self.split_site(h)->Ok_0.at, v).a }
    }

    /// The world `after` and the result `r` are what splitting each of the
    /// halfedges from the `i`-th on makes of this world. A halfedge that was
    /// split before, itself or as the opposite of another, is passed over.
    /// Each split puts a new vertex on the edge, at the position of the
    /// source for the time being. The work stops at the first error.
    pub open spec fn edges_split(
        self,
        hs: Seq<HalfedgeId>,
        i: int,
        st: Harvest,
        after: World,
        r: SMeshResult<Harvest>,
    ) -> bool
        decreases hs.len() - i,
    {
        if i < 0 || i >= hs.len() {
            after == self && r == Ok::<Harvest, SMeshError>(st)
        } else if st.done.contains(hs[i]) {
            self.edges_split(hs, i + 1, st, after, r)
        } else if self.split_site(hs[i]) is Err {
            after == self && r == Err::<Harvest, SMeshError>(self.split_site(hs[i])->Err_0)
        } else {
            exists|v: VertexId, mid: Graph, rh: SMeshResult<HalfedgeId>|
                #![trigger self.split_step(hs[i], v, mid, rh)]
                self.split_step(hs[i], v, mid, rh) && (if split_pair(mid, rh) is Err {
                    after == self.split_world(hs[i], v, mid) && r == Err::<Harvest, SMeshError>(
                        split_pair(mid, rh)->Err_0,
                    )
                } else {
                    self.split_world(hs[i], v, mid).edges_split(
                        hs,
                        i + 1,
                        st.with_split(
                            hs[i],
                            self.split_site(hs[i])->Ok_0.opposite,
                            split_pair(mid, rh)->Ok_0.0,
                            split_pair(mid, rh)->Ok_0.1,
                            v,
                            self.split_site(hs[i])->Ok_0.src,
                            self.split_site(hs[i])->Ok_0.dst,
                        ),
                        after,
                        r,
                    )
                })
        }
    }
}

/// The new halfedge that a split has given, and its opposite.
pub open spec fn split_pair(mid: Graph, rh: SMeshResult<HalfedgeId>) -> SMeshResult<
    (HalfedgeId, HalfedgeId),
> {
    match rh {
        Err(e) => Err(e),
        Ok(nh) => match mid.he_opposite(nh) {
            Err(e) => Err(e),
            Ok(no) => Ok((nh, no)),
        },
    }
}

impl Graph {
    /// The corner of a face from which its subdivision starts: the source of
    /// its stored halfedge.
    pub open spec fn face_corner(self, f: FaceId) -> SMeshResult<VertexId> {
        match self.face_halfedge(f) {
            Err(e) => Err(e),
            Ok(h) => self.src_vertex(h),
        }
    }

    /// The corners of the faces from the `i`-th on, after `acc`.
    pub open spec fn face_corners(self, fs: Seq<FaceId>, i: int, acc: Seq<VertexId>) -> SMeshResult<
        Seq<VertexId>,
    >
        decreases fs.len() - i,
    {
        if i < 0 || i >= fs.len() {
            Ok(acc)
        } else {
            match self.face_corner(fs[i]) {
                Err(e) => Err(e),
                Ok(c) => self.face_corners(fs, i + 1, acc.push(c)),
            }
        }
    }

    /// The first of the halfedges from the `j`-th on that leaves `corner`.
    pub open spec fn leaving(self, ring: Seq<HalfedgeId>, corner: VertexId, j: int) -> SMeshResult<
        HalfedgeId,
    >
        decreases ring.len() - j,
    {
        if j < 0 || j >= ring.len() {
            Err(SMeshError::DefaultError)
        } else {
            match self.src_vertex(ring[j]) {
                Err(e) => Err(e),
                Ok(src) => if src == corner {
                    Ok(ring[j])
                } else {
                    self.leaving(ring, corner, j + 1)
                },
            }
        }
    }

    /// The loop of `next` from `h0`: its halfedges, if it comes back to `h0`
    /// and is not longer than `MAX_LOOP`.
    pub open spec fn halfedge_loop(self, h0: HalfedgeId) -> SMeshResult<Seq<HalfedgeId>> {
        let ring = self.orbit(Turn::Next, h0);
        if ring.len() == 0 {
            Err(SMeshError::HalfedgeNotFound(h0))
        } else if ring.len() > MAX_LOOP {
            Err(SMeshError::TopologyError)
        } else {
            match self.he_next(ring.last()) {
                Err(e) => Err(e),
                Ok(n) => if n == h0 {
                    Ok(ring)
                } else {
                    Err(SMeshError::TopologyError)
                },
            }
        }
    }

    /// The corners of the piece that is cut off at the place `k` of the
    /// loop: the sources of the halfedge there and of the one after it, and
    /// the target of that one; then the apex, if there is one.
    pub open spec fn piece(self, ring: Seq<HalfedgeId>, k: int, apex: Option<VertexId>) -> SMeshResult<
        Seq<VertexId>,
    > {
        let h0 = ring[k];
        let h1 = ring[next_index(k, ring.len() as int)];
        match self.src_vertex(h0) {
            Err(e) => Err(e),
            Ok(a) => match self.src_vertex(h1) {
                Err(e) => Err(e),
                Ok(b) => match self.he_vertex(h1) {
                    Err(e) => Err(e),
                    Ok(c) => match apex {
                        Some(top) => Ok(seq![a, b, c, top]),
                        None => Ok(seq![a, b, c]),
                    },
                },
            },
        }
    }

    /// The graph `after` and the result `r` are what cutting a piece off at
    /// every second place of the loop, from the place `k` on, makes of this
    /// graph: the faces of the pieces after `acc`, or the first error, at
    /// which the work stops.
    pub open spec fn pieces_made(
        self,
        ring: Seq<HalfedgeId>,
        k: int,
        apex: Option<VertexId>,
        acc: Seq<FaceId>,
        after: Graph,
        r: SMeshResult<Seq<FaceId>>,
    ) -> bool
        decreases ring.len() + 1 - k,
    {
        if k < 0 || k >= ring.len() {
            after == self && r == Ok::<Seq<FaceId>, SMeshError>(acc)
        } else if self.piece(ring, k, apex) is Err {
            after == self && r == Err::<Seq<FaceId>, SMeshError>(self.piece(ring, k, apex)->Err_0)
        } else {
            exists|mid: Graph, made: SMeshResult<FaceId>|
                #![trigger self.made_face(self.piece(ring, k, apex)->Ok_0, mid, made)]
                self.made_face(self.piece(ring, k, apex)->Ok_0, mid, made) && (if made is Err {
                    after == mid && r == Err::<Seq<FaceId>, SMeshError>(made->Err_0)
                } else {
                    mid.pieces_made(ring, k + 2, apex, acc.push(made->Ok_0), after, r)
                })
        }
    }

    /// The corners of the triangle in the middle of a subdivided triangle:
    /// the sources of the first, third and fifth halfedge of the loop.
    pub open spec fn middle(self, ring: Seq<HalfedgeId>) -> SMeshResult<Seq<VertexId>> {
        if ring.len() < 5 {
            Err(SMeshError::TopologyError)
        } else {
            match self.src_vertex(ring[0]) {
                Err(e) => Err(e),
                Ok(a) => match self.src_vertex(ring[2]) {
                    Err(e) => Err(e),
                    Ok(b) => match self.src_vertex(ring[4]) {
                        Err(e) => Err(e),
                        Ok(c) => Ok(seq![a, b, c]),
                    },
                },
            }
        }
    }

    /// The pieces around the rim of a subdivided triangle, then the triangle
    /// in the middle.
    pub open spec fn triangle_refined(
        self,
        ring: Seq<HalfedgeId>,
        after: Graph,
        r: SMeshResult<Seq<FaceId>>,
    ) -> bool {
        exists|mid: Graph, rim: SMeshResult<Seq<FaceId>>| #[trigger]
            self.triangle_refined_via(ring, mid, rim, after, r)
    }

    /// The rim leaves the graph `mid` and gives `rim`; then the middle.
    pub open spec fn triangle_refined_via(
        self,
        ring: Seq<HalfedgeId>,
        mid: Graph,
        rim: SMeshResult<Seq<FaceId>>,
        after: Graph,
        r: SMeshResult<Seq<FaceId>>,
    ) -> bool {
        self.pieces_made(ring, 0, None, Seq::empty(), mid, rim) && mid.middle_made(
            ring,
            rim,
            after,
            r,
        )
    }

    /// After the rim with the result `rim`: the triangle in the middle.
    pub open spec fn middle_made(
        self,
        ring: Seq<HalfedgeId>,
        rim: SMeshResult<Seq<FaceId>>,
        after: Graph,
        r: SMeshResult<Seq<FaceId>>,
    ) -> bool {
        match rim {
            Err(e) => after == self && r == Err::<Seq<FaceId>, SMeshError>(e),
            Ok(fs) => match self.middle(ring) {
                Err(e) => after == self && r == Err::<Seq<FaceId>, SMeshError>(e),
                Ok(poly) => self.last_made(poly, fs, after, r),
            },
        }
    }

    /// One more face after `fs`.
    pub open spec fn last_made(
        self,
        poly: Seq<VertexId>,
        fs: Seq<FaceId>,
        after: Graph,
        r: SMeshResult<Seq<FaceId>>,
    ) -> bool {
        exists|made: SMeshResult<FaceId>| #[trigger] self.last_made_via(poly, fs, made, after, r)
    }

    /// The construction gives `made`.
    pub open spec fn last_made_via(
        self,
        poly: Seq<VertexId>,
        fs: Seq<FaceId>,
        made: SMeshResult<FaceId>,
        after: Graph,
        r: SMeshResult<Seq<FaceId>>,
    ) -> bool {
        self.made_face(poly, after, made) && r == (match made {
            Ok(f) => Ok::<Seq<FaceId>, SMeshError>(fs.push(f)),
            Err(e) => Err::<Seq<FaceId>, SMeshError>(e),
        })
    }
}

/// What the subdivision of one face reads before it changes anything.
pub struct RefineSite {
    /// Half the number of corners that the face has after the splits.
    pub sides: nat,
    /// The loop of the face from the halfedge after the one that leaves the
    /// corner.
    pub ring: Seq<HalfedgeId>,
    /// The corners of the face.
    pub corners: Seq<VertexId>,
}

/// `st` with each of the faces from the `j`-th on.
pub open spec fn with_faces(st: Harvest, fs: Seq<FaceId>, j: int) -> Harvest
    decreases fs.len() - j,
{
    if j < 0 || j >= fs.len() {
        st
    } else {
        with_faces(st.with_face(fs[j]), fs, j + 1)
    }
}

impl World {
    /// What the subdivision of the face `f`, which starts at `corner`,
    /// reads, or the reason why it cannot start.
    pub open spec fn refine_site(self, f: FaceId, corner: VertexId) -> SMeshResult<RefineSite> {
        let corners = self.g.face_vertices(f);
        match self.g.leaving(self.g.face_halfedges(f), corner, 0) {
            Err(e) => Err(e),
            Ok(corner_edge) => match self.g.he_next(corner_edge) {
                Err(e) => Err(e),
                Ok(first) => match self.g.halfedge_loop(first) {
                    Err(e) => Err(e),
                    Ok(ring) => if corners.len() / 2 == 4 {
                        match self.positions(corners, 0, Seq::empty()) {
                            Err(e) => Err(e),
                            Ok(_) => Ok(RefineSite { sides: 4, ring, corners }),
                        }
                    } else {
                        Ok(RefineSite { sides: corners.len() / 2, ring, corners })
                    },
                },
            },
        }
    }

    /// The subdivision of a former triangle: the face goes, and the pieces
    /// and the middle come.
    pub open spec fn triangle_done(
        self,
        f: FaceId,
        ring: Seq<HalfedgeId>,
        after: World,
        r: SMeshResult<Seq<FaceId>>,
    ) -> bool {
        let e = Edit::of(self.g).delete_only_face(f);
        &&& after.a == self.a
        &&& (match e.err {
            Some(err) => after.g == e.g && r == Err::<Seq<FaceId>, SMeshError>(err),
            None => e.g.triangle_refined(ring, after.g, r),
        })
    }

    /// The subdivision of a former quad under the identifier `centre` of the
    /// new vertex: the vertex comes, at the position of the first corner for
    /// the time being; the face goes; and the pieces, each with the new
    /// vertex as its apex, come.
    pub open spec fn quad_done(
        self,
        f: FaceId,
        site: RefineSite,
        centre: VertexId,
        after: World,
        r: SMeshResult<Seq<FaceId>>,
    ) -> bool {
        let w1 = self.added(self.a.positions[site.corners[0]@], centre);
        let e = Edit::of(w1.g).delete_only_face(f);
        &&& !self.g.vertices.contains_key(centre)
        &&& self.g.vertex_free(centre)
        &&& after.a == w1.a
        &&& (match e.err {
            Some(err) => after.g == e.g && r == Err::<Seq<FaceId>, SMeshError>(err),
            None => e.g.pieces_made(site.ring, 0, Some(centre), Seq::empty(), after.g, r),
        })
    }

    /// The subdivision of the face `f`, which starts at `corner`, leaves the
    /// world `mid` and gives `made`, with `centre` as the new vertex where
    /// the face was a quad.
    pub open spec fn refine_step(
        self,
        f: FaceId,
        corner: VertexId,
        centre: VertexId,
        mid: World,
        made: SMeshResult<Seq<FaceId>>,
    ) -> bool {
        match self.refine_site(f, corner) {
            Err(_) => false,
            Ok(site) => if site.sides == 3 {
                self.triangle_done(f, site.ring, mid, made)
            } else if site.sides == 4 {
                self.quad_done(f, site, centre, mid, made)
            } else {
                mid == self && made == Ok::<Seq<FaceId>, SMeshError>(Seq::empty())
            },
        }
    }

    /// What the subdivision of one face adds to what was gathered.
    pub open spec fn refine_harvest(
        self,
        f: FaceId,
        corner: VertexId,
        centre: VertexId,
        pieces: Seq<FaceId>,
        st: Harvest,
    ) -> Harvest {
        let site = self.refine_site(f, corner)->Ok_0;
        with_faces(
            if site.sides == 4 {
                st.with_centre(centre, site.corners)
            } else {
                st
            },
            pieces,
            0,
        )
    }

    /// The world `after` and the result `r` are what subdividing each of the
    /// faces from the `i`-th on makes of this world. A face that has six
    /// corners after the splits becomes three triangles at its former
    /// corners and one in the middle; one that has eight becomes four quads
    /// around a new vertex; any other stays as it is.
    pub open spec fn faces_refined(
        self,
        fs: Seq<FaceId>,
        corners: Seq<VertexId>,
        i: int,
        st: Harvest,
        after: World,
        r: SMeshResult<Harvest>,
    ) -> bool
        decreases fs.len() - i,
    {
        if i < 0 || i >= fs.len() {
            after == self && r == Ok::<Harvest, SMeshError>(st)
        } else if self.refine_site(fs[i], corners[i]) is Err {
            after == self && r == Err::<Harvest, SMeshError>(
                self.refine_site(fs[i], corners[i])->Err_0,
            )
        } else {
            exists|centre: VertexId, mid: World, made: SMeshResult<Seq<FaceId>>|
                #![trigger self.refine_step(fs[i], corners[i], centre, mid, made)]
                self.refine_step(fs[i], corners[i], centre, mid, made) && (if made is Err {
                    after == mid && r == Err::<Harvest, SMeshError>(made->Err_0)
                } else {
                    mid.faces_refined(
                        fs,
                        corners,
                        i + 1,
                        self.refine_harvest(fs[i], corners[i], centre, made->Ok_0, st),
                        after,
                        r,
                    )
                })
        }
    }

    /// The splits leave the world `mid` and give `split`; then the faces.
    pub open spec fn subdivided_via(
        self,
        hs: Seq<HalfedgeId>,
        fs: Seq<FaceId>,
        corners: Seq<VertexId>,
        mid: World,
        split: SMeshResult<Harvest>,
        after: World,
        r: SMeshResult<Harvest>,
    ) -> bool {
        &&& self.edges_split(hs, 0, Harvest::empty(), mid, split)
        &&& (match split {
            Err(e) => after == mid && r == Err::<Harvest, SMeshError>(e),
            Ok(st) => mid.faces_refined(fs, corners, 0, st, after, r),
        })
    }

    /// The subdivision once the selection is resolved.
    pub open spec fn subdivided_from(
        self,
        hs: Seq<HalfedgeId>,
        fs: Seq<FaceId>,
        corners: Seq<VertexId>,
        after: World,
        r: SMeshResult<Harvest>,
    ) -> bool {
        exists|mid: World, split: SMeshResult<Harvest>| #[trigger]
            self.subdivided_via(hs, fs, corners, mid, split, after, r)
    }

    /// The world `after` and the result `r` are what subdividing a selection
    /// makes of this world. Nothing is changed where the selection cannot be
    /// resolved into faces and halfedges or a face has no corner to start
    /// from. Else every selected edge is split once, and then every selected
    /// face is subdivided.
    pub open spec fn subdivided(self, picks: Picks, after: World, r: SMeshResult<Harvest>) -> bool {
        match self.g.resolve_to_faces(picks) {
            Err(e) => after == self && r == Err::<Harvest, SMeshError>(e),
            Ok(fs) => match self.g.resolve_to_halfedges(picks) {
                Err(e) => after == self && r == Err::<Harvest, SMeshError>(e),
                Ok(hs) => match self.g.face_corners(fs, 0, Seq::empty()) {
                    Err(e) => after == self && r == Err::<Harvest, SMeshError>(e),
                    Ok(corners) => self.subdivided_from(hs, fs, corners, after, r),
                },
            },
        }
    }
}

/// What a subdivision has gathered so far, as it is kept while it runs.
pub struct Gathered {
    pub done: Vec<HalfedgeId>,
    pub selection: MeshSelection,
    pub placements: Vec<Placement>,
}

impl View for Gathered {
    type V = Harvest;

    open spec fn view(&self) -> Harvest {
        Harvest {
            done: self.done@,
            picks: self.selection@,
            placements: placements_view(self.placements@),
        }
    }
}

/// The result of a pass of a subdivision as a value.
pub open spec fn harvest_view(r: SMeshResult<Gathered>) -> SMeshResult<Harvest> {
    match r {
        Ok(g) => Ok(g@),
        Err(e) => Err(e),
    }
}

/// The result of a subdivision as a value.
pub open spec fn subdivision_view(r: SMeshResult<Subdivision>) -> SMeshResult<(Picks, Seq<(VertexId, Seq<VertexId>)>)> {
    match r {
        Ok(s) => Ok((s.selection@, placements_view(s.placements@))),
        Err(e) => Err(e),
    }
}

impl World {
    /// The subdivision gives the selection `picks` and the placements
    /// `placements`, after it has split the halfedges `done`.
    pub open spec fn subdivided_and_done(
        self,
        selected: Picks,
        after: World,
        done: Seq<HalfedgeId>,
        picks: Picks,
        placements: Seq<(VertexId, Seq<VertexId>)>,
    ) -> bool {
        self.subdivided(selected, after, Ok::<Harvest, SMeshError>(Harvest { done, picks, placements }))
    }

    /// The subdivision gives the selection `picks` and the placements
    /// `placements`.
    pub open spec fn subdivided_to(
        self,
        selected: Picks,
        after: World,
        picks: Picks,
        placements: Seq<(VertexId, Seq<VertexId>)>,
    ) -> bool {
        exists|done: Seq<HalfedgeId>| #[trigger]
            self.subdivided_and_done(selected, after, done, picks, placements)
    }

    /// The world `after` and the result `r` are what subdividing a selection
    /// makes of this world.
    pub open spec fn subdivided_as(
        self,
        selected: Picks,
        after: World,
        r: SMeshResult<(Picks, Seq<(VertexId, Seq<VertexId>)>)>,
    ) -> bool {
        match r {
            Err(e) => self.subdivided(selected, after, Err::<Harvest, SMeshError>(e)),
            Ok(s) => self.subdivided_to(selected, after, s.0, s.1),
        }
    }

    /// The room that a subdivision needs: a vertex and two halfedges for
    /// each edge, and a vertex and `MAX_LOOP` pieces for each face.
    pub open spec fn subdivide_room(self, picks: Picks) -> (int, int, int) {
        match self.g.resolve_to_faces(picks) {
            Err(_) => (0, 0, 0),
            Ok(fs) => match self.g.resolve_to_halfedges(picks) {
                Err(_) => (0, 0, 0),
                Ok(hs) => (
                    (hs.len() + fs.len()) as int,
                    2 * (hs.len() as int) + 8 * (MAX_LOOP as int + 1) * (fs.len() as int),
                    (MAX_LOOP as int + 1) * (fs.len() as int),
                ),
            },
        }
    }
}

impl SMesh {
    fn face_corners(&self, fs: &Vec<FaceId>) -> (r: SMeshResult<Vec<VertexId>>)
        ensures
            match r {
                Ok(cs) => self.graph().face_corners(fs@, 0, Seq::empty()) == Ok::<
                    Seq<VertexId>,
                    SMeshError,
                >(cs@) && cs@.len() == fs@.len(),
                Err(e) => self.graph().face_corners(fs@, 0, Seq::empty()) == Err::<
                    Seq<VertexId>,
                    SMeshError,
                >(e),
            },
    {
        let mut acc: Vec<VertexId> = Vec::new();
        let mut i: usize = 0;
        while i < fs.len()
            invariant
                0 <= i <= fs@.len(),
                acc@.len() == i,
                self.graph().face_corners(fs@, 0, Seq::empty()) == self.graph().face_corners(
                    fs@,
                    i as int,
                    acc@,
                ),
            decreases fs@.len() - i,
        {
            let h = self.connectivity.face_halfedge(fs[i])?;
            let c = self.connectivity.src_vertex(h)?;
            acc.push(c);
            i += 1;
        }
        Ok(acc)
    }

    fn split_site(&self, h: HalfedgeId) -> (r: SMeshResult<(HalfedgeId, VertexId, VertexId, Point3)>)
        ensures
            match r {
                Ok(s) => self.world().split_site(h) == Ok::<SplitSite, SMeshError>(
                    SplitSite { opposite: s.0, src: s.1, dst: s.2, at: s.3 },
                ),
                Err(e) => self.world().split_site(h) == Err::<SplitSite, SMeshError>(e),
            },
    {
        let opposite = self.connectivity.he_opposite(h)?;
        let src = self.connectivity.src_vertex(h)?;
        let at = self.position(src)?;
        let dst = self.connectivity.he_vertex(h)?;
        let _ = self.position(dst)?;
        Ok((opposite, src, dst, at))
    }

    fn split_edges(&mut self, hs: &Vec<HalfedgeId>) -> (r: SMeshResult<Gathered>)
        requires
            old(self).room().covers(hs@.len() as int, 2 * (hs@.len() as int), 0),
        ensures
            old(self).world().edges_split(
                hs@,
                0,
                Harvest::empty(),
                final(self).world(),
                harvest_view(r),
            ),
            final(self).room().within(old(self).room(), hs@.len() as int, 2 * (hs@.len() as int), 0),
    {
        let ghost w0 = self.world();
        let mut st = Gathered {
            done: Vec::new(),
            selection: MeshSelection::new(),
            placements: Vec::new(),
        };
        proof {
            assert(placements_view(st.placements@) =~= Seq::empty());
        }
        let mut i: usize = 0;
        while i < hs.len()
            invariant
                0 <= i <= hs@.len(),
                w0 == old(self).world(),
                old(self).room().covers(hs@.len() as int, 2 * (hs@.len() as int), 0),
                self.room().within(old(self).room(), i as int, 2 * (i as int), 0),
                forall|after: World, r: SMeshResult<Harvest>|
                    #[trigger] self.world().edges_split(hs@, i as int, st@, after, r)
                        ==> w0.edges_split(hs@, 0, Harvest::empty(), after, r),
            decreases hs@.len() - i,
        {
            let h = hs[i];
            let ghost before = self.world();
            let ghost st_before = st@;
            if has_halfedge(&st.done, h) {
                proof {
                    assert forall|after: World, r: SMeshResult<Harvest>|
                        #[trigger] self.world().edges_split(
                            hs@,
                            i + 1,
                            st@,
                            after,
                            r,
                        ) implies w0.edges_split(hs@, 0, Harvest::empty(), after, r) by {
                        assert(before.edges_split(hs@, i as int, st_before, after, r));
                    }
                }
                i += 1;
                continue;
            }
            let site = match self.split_site(h) {
                Ok(site) => site,
                Err(e) => {
                    proof {
                        assert(before.edges_split(
                            hs@,
                            i as int,
                            st_before,
                            before,
                            Err::<Harvest, SMeshError>(e),
                        ));
                    }
                    return Err(e);
                },
            };
            let ghost spec_site = SplitSite { opposite: site.0, src: site.1, dst: site.2, at: site.3 };
            let v = self.add_vertex(site.3);
            let rh = self.insert_vertex(h, v);
            let ghost mid = self.graph();
            let reached = match rh {
                Err(e) => Err(e),
                Ok(nh) => match self.connectivity.he_opposite(nh) {
                    Err(e) => Err(e),
                    Ok(no) => Ok((nh, no)),
                },
            };
            match reached {
                Err(e) => {
                    proof {
                        assert(before.split_step(h, v, mid, rh));
                        assert(split_pair(mid, rh) == Err::<(HalfedgeId, HalfedgeId), SMeshError>(e));
                        assert(before.edges_split(
                            hs@,
                            i as int,
                            st_before,
                            self.world(),
                            Err::<Harvest, SMeshError>(e),
                        ));
                    }
                    return Err(e);
                },
                Ok(pair) => {
                    if !has_halfedge(&st.done, h) {
                        st.done.push(h);
                    }
                    if !has_halfedge(&st.done, site.0) {
                        st.done.push(site.0);
                    }
                    st.selection.insert(h);
                    st.selection.insert(site.0);
                    st.selection.insert(pair.0);
                    st.selection.insert(pair.1);
                    let ghost placed = placements_view(st.placements@);
                    let mut among: Vec<VertexId> = Vec::new();
                    among.push(site.1);
                    among.push(site.2);
                    proof {
                        assert(among@ =~= seq![site.1, site.2]);
                    }
                    st.placements.push(Placement { vertex: v, among });
                    proof {
                        assert(placements_view(st.placements@) =~= placed.push(
                            (v, seq![site.1, site.2]),
                        ));
                        assert(st@ == st_before.with_split(
                            h,
                            site.0,
                            pair.0,
                            pair.1,
                            v,
                            site.1,
                            site.2,
                        ));
                        assert forall|after: World, r: SMeshResult<Harvest>|
                            #[trigger] self.world().edges_split(
                                hs@,
                                i + 1,
                                st@,
                                after,
                                r,
                            ) implies w0.edges_split(hs@, 0, Harvest::empty(), after, r) by {
                            assert(before.split_step(h, v, mid, rh));
                            assert(split_pair(mid, rh) == Ok::<(HalfedgeId, HalfedgeId), SMeshError>(
                                pair,
                            ));
                            assert(before.edges_split(hs@, i as int, st_before, after, r));
                        }
                    }
                },
            }
            i += 1;
        }
        proof {
            assert(self.world().edges_split(
                hs@,
                i as int,
                st@,
                self.world(),
                Ok::<Harvest, SMeshError>(st@),
            ));
        }
        Ok(st)
    }

    fn leaving(&self, ring: &Vec<HalfedgeId>, corner: VertexId) -> (r: SMeshResult<HalfedgeId>)
        ensures
            r == self.graph().leaving(ring@, corner, 0),
    {
        let mut j: usize = 0;
        while j < ring.len()
            invariant
                0 <= j <= ring@.len(),
                self.graph().leaving(ring@, corner, 0) == self.graph().leaving(
                    ring@,
                    corner,
                    j as int,
                ),
            decreases ring@.len() - j,
        {
            let src = self.connectivity.src_vertex(ring[j])?;
            if src == corner {
                return Ok(ring[j]);
            }
            j += 1;
        }
        Err(SMeshError::DefaultError)
    }

    /// The loop of `next` from `h0`, if it comes back to `h0` and is not
    /// longer than `MAX_LOOP`.
    pub fn halfedge_loop(&self, h0: HalfedgeId) -> (r: SMeshResult<Vec<HalfedgeId>>)
        ensures
            match r {
                Ok(ring) => self.graph().halfedge_loop(h0) == Ok::<Seq<HalfedgeId>, SMeshError>(
                    ring@,
                ) && 0 < ring@.len() <= MAX_LOOP,
                Err(e) => self.graph().halfedge_loop(h0) == Err::<Seq<HalfedgeId>, SMeshError>(e),
            },
    {
        let ring = self.connectivity.orbit(Turn::Next, h0);
        if ring.len() == 0 {
            return Err(SMeshError::HalfedgeNotFound(h0));
        }
        if ring.len() > MAX_LOOP {
            return Err(SMeshError::TopologyError);
        }
        let n = self.connectivity.he_next(ring[ring.len() - 1])?;
        if n == h0 {
            Ok(ring)
        } else {
            Err(SMeshError::TopologyError)
        }
    }

    fn piece(&self, ring: &Vec<HalfedgeId>, k: usize, apex: Option<VertexId>) -> (r: SMeshResult<
        Vec<VertexId>,
    >)
        requires
            k < ring@.len(),
            ring@.len() <= MAX_LOOP,
        ensures
            match r {
                Ok(poly) => self.graph().piece(ring@, k as int, apex) == Ok::<
                    Seq<VertexId>,
                    SMeshError,
                >(poly@) && poly@.len() <= 4,
                Err(e) => self.graph().piece(ring@, k as int, apex) == Err::<
                    Seq<VertexId>,
                    SMeshError,
                >(e),
            },
    {
        let j = if k + 1 >= ring.len() {
            0
        } else {
            k + 1
        };
        let a = self.connectivity.src_vertex(ring[k])?;
        let b = self.connectivity.src_vertex(ring[j])?;
        let c = self.connectivity.he_vertex(ring[j])?;
        let mut poly: Vec<VertexId> = Vec::new();
        poly.push(a);
        poly.push(b);
        poly.push(c);
        match apex {
            Some(top) => {
                poly.push(top);
                proof {
                    assert(poly@ =~= seq![a, b, c, top]);
                }
            },
            None => {
                proof {
                    assert(poly@ =~= seq![a, b, c]);
                }
            },
        }
        Ok(poly)
    }

    fn middle(&self, ring: &Vec<HalfedgeId>) -> (r: SMeshResult<Vec<VertexId>>)
        ensures
            match r {
                Ok(poly) => self.graph().middle(ring@) == Ok::<Seq<VertexId>, SMeshError>(poly@)
                    && poly@.len() == 3,
                Err(e) => self.graph().middle(ring@) == Err::<Seq<VertexId>, SMeshError>(e),
            },
    {
        if ring.len() < 5 {
            return Err(SMeshError::TopologyError);
        }
        let a = self.connectivity.src_vertex(ring[0])?;
        let b = self.connectivity.src_vertex(ring[2])?;
        let c = self.connectivity.src_vertex(ring[4])?;
        let mut poly: Vec<VertexId> = Vec::new();
        poly.push(a);
        poly.push(b);
        poly.push(c);
        proof {
            assert(poly@ =~= seq![a, b, c]);
        }
        Ok(poly)
    }

    fn make_pieces(&mut self, ring: &Vec<HalfedgeId>, apex: Option<VertexId>) -> (r: SMeshResult<
        Vec<FaceId>,
    >)
        requires
            ring@.len() <= MAX_LOOP,
            old(self).room().covers(0, 8 * (MAX_LOOP as int), MAX_LOOP as int),
        ensures
            old(self).graph().pieces_made(
                ring@,
                0,
                apex,
                Seq::empty(),
                final(self).graph(),
                crate::world::faces_view(r),
            ),
            final(self).attributes() == old(self).attributes(),
            final(self).room().within(old(self).room(), 0, 8 * (MAX_LOOP as int), MAX_LOOP as int),
    {
        let ghost g0 = self.graph();
        let mut acc: Vec<FaceId> = Vec::new();
        let mut k: usize = 0;
        while k < ring.len()
            invariant
                0 <= k <= ring@.len() + 1,
                ring@.len() <= MAX_LOOP,
                k % 2 == 0,
                g0 == old(self).graph(),
                self.attributes() == old(self).attributes(),
                old(self).room().covers(0, 8 * (MAX_LOOP as int), MAX_LOOP as int),
                self.room().within(old(self).room(), 0, 4 * (k as int), k as int / 2),
                forall|after: Graph, r: SMeshResult<Seq<FaceId>>|
                    #[trigger] self.graph().pieces_made(ring@, k as int, apex, acc@, after, r)
                        ==> g0.pieces_made(ring@, 0, apex, Seq::empty(), after, r),
            decreases ring@.len() + 1 - k,
        {
            let ghost before = self.graph();
            let ghost acc_before = acc@;
            let poly = match self.piece(ring, k, apex) {
                Ok(poly) => poly,
                Err(e) => {
                    proof {
                        assert(before.pieces_made(
                            ring@,
                            k as int,
                            apex,
                            acc_before,
                            before,
                            Err::<Seq<FaceId>, SMeshError>(e),
                        ));
                    }
                    return Err(e);
                },
            };
            let ghost poly_view = poly@;
            let made = self.make_face(poly);
            match made {
                Err(e) => {
                    proof {
                        assert(before.piece(ring@, k as int, apex) == Ok::<
                            Seq<VertexId>,
                            SMeshError,
                        >(poly_view));
                        assert(before.made_face(
                            before.piece(ring@, k as int, apex)->Ok_0,
                            self.graph(),
                            made,
                        ));
                        assert(made is Err);
                        assert(made->Err_0 == e);
                        assert(before.pieces_made(
                            ring@,
                            k as int,
                            apex,
                            acc_before,
                            self.graph(),
                            Err::<Seq<FaceId>, SMeshError>(e),
                        ));
                    }
                    return Err(e);
                },
                Ok(f) => {
                    acc.push(f);
                    proof {
                        assert forall|after: Graph, r: SMeshResult<Seq<FaceId>>|
                            #[trigger] self.graph().pieces_made(
                                ring@,
                                k + 2,
                                apex,
                                acc@,
                                after,
                                r,
                            ) implies g0.pieces_made(ring@, 0, apex, Seq::empty(), after, r) by {
                            assert(before.made_face(poly_view, self.graph(), made));
                            assert(before.pieces_made(ring@, k as int, apex, acc_before, after, r));
                        }
                    }
                },
            }
            k += 2;
        }
        proof {
            assert(self.graph().pieces_made(
                ring@,
                k as int,
                apex,
                acc@,
                self.graph(),
                Ok::<Seq<FaceId>, SMeshError>(acc@),
            ));
        }
        Ok(acc)
    }

    fn refine_triangle(&mut self, f: FaceId, ring: &Vec<HalfedgeId>) -> (r: SMeshResult<Vec<FaceId>>)
        requires
            ring@.len() <= MAX_LOOP,
            old(self).room().covers(0, 8 * (MAX_LOOP as int + 1), MAX_LOOP as int + 1),
        ensures
            old(self).world().triangle_done(
                f,
                ring@,
                final(self).world(),
                crate::world::faces_view(r),
            ),
            final(self).room().within(old(self).room(), 0, 8 * (MAX_LOOP as int + 1), MAX_LOOP as int + 1),
    {
        self.delete_only_face(f)?;
        let ghost g1 = self.graph();
        let rim = self.make_pieces(ring, None);
        let ghost g2 = self.graph();
        let ghost rim_view = crate::world::faces_view(rim);
        let mut fs = match rim {
            Err(e) => {
                proof {
                    assert(g2.middle_made(ring@, rim_view, g2, Err::<Seq<FaceId>, SMeshError>(e)));
                    assert(g1.triangle_refined_via(
                        ring@,
                        g2,
                        rim_view,
                        g2,
                        Err::<Seq<FaceId>, SMeshError>(e),
                    ));
                }
                return Err(e);
            },
            Ok(fs) => fs,
        };
        let poly = match self.middle(ring) {
            Err(e) => {
                proof {
                    assert(g2.middle_made(ring@, rim_view, g2, Err::<Seq<FaceId>, SMeshError>(e)));
                    assert(g1.triangle_refined_via(
                        ring@,
                        g2,
                        rim_view,
                        g2,
                        Err::<Seq<FaceId>, SMeshError>(e),
                    ));
                }
                return Err(e);
            },
            Ok(poly) => poly,
        };
        let ghost poly_view = poly@;
        let ghost fs_before = fs@;
        let made = self.make_face(poly);
        let r = match made {
            Ok(face) => {
                fs.push(face);
                Ok(fs)
            },
            Err(e) => Err(e),
        };
        proof {
            assert(g2.last_made_via(
                poly_view,
                fs_before,
                made,
                self.graph(),
                crate::world::faces_view(r),
            ));
            assert(g2.middle_made(ring@, rim_view, self.graph(), crate::world::faces_view(r)));
            assert(g1.triangle_refined_via(
                ring@,
                g2,
                rim_view,
                self.graph(),
                crate::world::faces_view(r),
            ));
        }
        r
    }

    fn refine_quad(&mut self, f: FaceId, ring: &Vec<HalfedgeId>, corners: &Vec<VertexId>, Ghost(site): Ghost<
        RefineSite,
    >) -> (r: (SMeshResult<Vec<FaceId>>, VertexId))
        requires
            ring@ == site.ring,
            corners@ == site.corners,
            corners@.len() > 0,
            old(self).attributes().positions.contains_key(corners@[0]@),
            ring@.len() <= MAX_LOOP,
            old(self).room().covers(1, 8 * (MAX_LOOP as int), MAX_LOOP as int),
        ensures
            old(self).world().quad_done(
                f,
                site,
                r.1,
                final(self).world(),
                crate::world::faces_view(r.0),
            ),
            final(self).room().within(old(self).room(), 1, 8 * (MAX_LOOP as int), MAX_LOOP as int),
    {
        let at = match self.position(corners[0]) {
            Ok(p) => p,
            Err(_) => Point3::new(0, 0, 0),
        };
        let centre = self.add_vertex(at);
        match self.delete_only_face(f) {
            Err(e) => {
                return (Err(e), centre);
            },
            Ok(()) => {},
        }
        let r = self.make_pieces(ring, Some(centre));
        (r, centre)
    }

    fn refine_site(&self, f: FaceId, corner: VertexId) -> (r: SMeshResult<
        (usize, Vec<HalfedgeId>, Vec<VertexId>),
    >)
        ensures
            match r {
                Ok(s) => self.world().refine_site(f, corner) == Ok::<RefineSite, SMeshError>(
                    RefineSite { sides: s.0 as nat, ring: s.1@, corners: s.2@ },
                ) && 0 < s.1@.len() <= MAX_LOOP && (s.0 == 4 ==> s.2@.len() > 0
                    && self.attributes().positions.contains_key(s.2@[0]@)),
                Err(e) => self.world().refine_site(f, corner) == Err::<RefineSite, SMeshError>(e),
            },
    {
        let corners = self.connectivity.face_vertices(f);
        let around = self.connectivity.face_halfedges(f);
        let corner_edge = self.leaving(&around, corner)?;
        let first = self.connectivity.he_next(corner_edge)?;
        let ring = self.halfedge_loop(first)?;
        let sides = corners.len() / 2;
        if sides == 4 {
            let _ = self.positions_of(&corners)?;
        }
        Ok((sides, ring, corners))
    }

    fn gather_faces(st: &mut Gathered, fs: &Vec<FaceId>)
        ensures
            final(st)@ == with_faces(old(st)@, fs@, 0),
    {
        let mut j: usize = 0;
        while j < fs.len()
            invariant
                0 <= j <= fs@.len(),
                with_faces(old(st)@, fs@, 0) == with_faces(st@, fs@, j as int),
            decreases fs@.len() - j,
        {
            st.selection.insert(fs[j]);
            j += 1;
        }
    }

    fn refine_faces(&mut self, fs: &Vec<FaceId>, corners: &Vec<VertexId>, st: &mut Gathered) -> (r:
        SMeshResult<()>)
        requires
            corners@.len() == fs@.len(),
            old(self).room().covers(
                fs@.len() as int,
                8 * (MAX_LOOP as int + 1) * (fs@.len() as int),
                (MAX_LOOP as int + 1) * (fs@.len() as int),
            ),
        ensures
            old(self).world().faces_refined(
                fs@,
                corners@,
                0,
                old(st)@,
                final(self).world(),
                match r {
                    Ok(_) => Ok(final(st)@),
                    Err(e) => Err(e),
                },
            ),
            final(self).room().within(
                old(self).room(),
                fs@.len() as int,
                8 * (MAX_LOOP as int + 1) * (fs@.len() as int),
                (MAX_LOOP as int + 1) * (fs@.len() as int),
            ),
    {
        let ghost w0 = self.world();
        let ghost st0 = st@;
        let mut i: usize = 0;
        while i < fs.len()
            invariant
                0 <= i <= fs@.len(),
                corners@.len() == fs@.len(),
                w0 == old(self).world(),
                st0 == old(st)@,
                old(self).room().covers(
                    fs@.len() as int,
                    8 * (MAX_LOOP as int + 1) * (fs@.len() as int),
                    (MAX_LOOP as int + 1) * (fs@.len() as int),
                ),
                self.room().within(
                    old(self).room(),
                    i as int,
                    8 * (MAX_LOOP as int + 1) * (i as int),
                    (MAX_LOOP as int + 1) * (i as int),
                ),
                forall|after: World, r: SMeshResult<Harvest>|
                    #[trigger] self.world().faces_refined(fs@, corners@, i as int, st@, after, r)
                        ==> w0.faces_refined(fs@, corners@, 0, st0, after, r),
            decreases fs@.len() - i,
        {
            let ghost before = self.world();
            let ghost st_before = st@;
            let f = fs[i];
            let corner = corners[i];
            proof {
                assert(8 * (MAX_LOOP as int + 1) * (fs@.len() as int) >= 8 * (MAX_LOOP as int + 1) * (
                i as int) + 8 * (MAX_LOOP as int + 1)) by (nonlinear_arith)
                    requires
                        i < fs@.len(),
                ;
                assert((MAX_LOOP as int + 1) * (fs@.len() as int) >= (MAX_LOOP as int + 1) * (
                i as int) + (MAX_LOOP as int + 1)) by (nonlinear_arith)
                    requires
                        i < fs@.len(),
                ;
                assert(8 * (MAX_LOOP as int + 1) * (i + 1) == 8 * (MAX_LOOP as int + 1) * (i as int)
                    + 8 * (MAX_LOOP as int + 1)) by (nonlinear_arith);
                assert((MAX_LOOP as int + 1) * (i + 1) == (MAX_LOOP as int + 1) * (i as int) + (
                MAX_LOOP as int + 1)) by (nonlinear_arith);
            }
            let site = match self.refine_site(f, corner) {
                Ok(site) => site,
                Err(e) => {
                    proof {
                        assert(before.faces_refined(
                            fs@,
                            corners@,
                            i as int,
                            st_before,
                            before,
                            Err::<Harvest, SMeshError>(e),
                        ));
                    }
                    return Err(e);
                },
            };
            let ghost spec_site = RefineSite { sides: site.0 as nat, ring: site.1@, corners: site.2@ };
            let mut centre = corner;
            let made = if site.0 == 3 {
                self.refine_triangle(f, &site.1)
            } else if site.0 == 4 {
                let done = self.refine_quad(f, &site.1, &site.2, Ghost(spec_site));
                centre = done.1;
                done.0
            } else {
                Ok(Vec::new())
            };
            let ghost made_view = crate::world::faces_view(made);
            proof {
                assert(before.refine_step(f, corner, centre, self.world(), made_view));
            }
            match made {
                Err(e) => {
                    proof {
                        assert(before.faces_refined(
                            fs@,
                            corners@,
                            i as int,
                            st_before,
                            self.world(),
                            Err::<Harvest, SMeshError>(e),
                        ));
                    }
                    return Err(e);
                },
                Ok(pieces) => {
                    if site.0 == 4 {
                        let ghost placed = placements_view(st.placements@);
                        let ghost among = site.2@;
                        st.placements.push(Placement { vertex: centre, among: site.2 });
                        proof {
                            assert(placements_view(st.placements@) =~= placed.push((centre, among)));
                        }
                    }
                    Self::gather_faces(st, &pieces);
                    proof {
                        assert(st@ == before.refine_harvest(f, corner, centre, pieces@, st_before));
                        assert forall|after: World, r: SMeshResult<Harvest>|
                            #[trigger] self.world().faces_refined(
                                fs@,
                                corners@,
                                i + 1,
                                st@,
                                after,
                                r,
                            ) implies w0.faces_refined(fs@, corners@, 0, st0, after, r) by {
                            assert(before.refine_step(f, corner, centre, self.world(), made_view));
                            assert(before.faces_refined(fs@, corners@, i as int, st_before, after, r));
                        }
                    }
                },
            }
            i += 1;
        }
        proof {
            assert(self.world().faces_refined(
                fs@,
                corners@,
                i as int,
                st@,
                self.world(),
                Ok::<Harvest, SMeshError>(st@),
            ));
        }
        Ok(())
    }

    /// `subdivide` with its exact contract.
    fn subdivide_exact(&mut self, selection: MeshSelection) -> (r: SMeshResult<Subdivision>)
        requires
            old(self).room().covers(
                old(self).world().subdivide_room(selection@).0,
                old(self).world().subdivide_room(selection@).1,
                old(self).world().subdivide_room(selection@).2,
            ),
        ensures
            old(self).world().subdivided_as(selection@, final(self).world(), subdivision_view(r)),
            final(self).room().within(
                old(self).room(),
                old(self).world().subdivide_room(selection@).0,
                old(self).world().subdivide_room(selection@).1,
                old(self).world().subdivide_room(selection@).2,
            ),
    {
        let fs = selection.resolve_to_faces(self)?;
        let hs = selection.resolve_to_halfedges(self)?;
        let corners = self.face_corners(&fs)?;
        let ghost w0 = self.world();
        let split = self.split_edges(&hs);
        let ghost w1 = self.world();
        let ghost split_view = harvest_view(split);
        let mut st = match split {
            Err(e) => {
                proof {
                    assert(w0.subdivided_via(
                        hs@,
                        fs@,
                        corners@,
                        w1,
                        split_view,
                        w1,
                        Err::<Harvest, SMeshError>(e),
                    ));
                }
                return Err(e);
            },
            Ok(st) => st,
        };
        proof {
            assert(2 * (hs@.len() as int) + 8 * (MAX_LOOP as int + 1) * (fs@.len() as int) - 2 * (
            hs@.len() as int) == 8 * (MAX_LOOP as int + 1) * (fs@.len() as int));
        }
        let refined = self.refine_faces(&fs, &corners, &mut st);
        let ghost refined_view = match refined {
            Ok(_) => Ok::<Harvest, SMeshError>(st@),
            Err(e) => Err::<Harvest, SMeshError>(e),
        };
        proof {
            assert(w0.subdivided_via(hs@, fs@, corners@, w1, split_view, self.world(), refined_view));
        }
        match refined {
            Err(e) => Err(e),
            Ok(_) => {
                let ghost full = st@;
                let r = Subdivision { selection: st.selection, placements: st.placements };
                proof {
                    assert(w0.subdivided(selection@, self.world(), Ok::<Harvest, SMeshError>(full)));
                    assert(w0.subdivided_and_done(
                        selection@,
                        self.world(),
                        full.done,
                        r.selection@,
                        placements_view(r.placements@),
                    ));
                }
                Ok(r)
            },
        }
    }

    /// Subdivides a selection: every selected edge is split once, and every
    /// selected face is cut into pieces along the new vertices. A former
    /// triangle becomes four triangles, a former quad four quads around a
    /// new vertex, any other face stays as it is. Each new vertex is put at
    /// the position of one of the vertices between which it belongs, and the
    /// result names those vertices.
    pub fn subdivide(&mut self, selection: MeshSelection) -> (r: SMeshResult<Subdivision>)
        requires
            old(self).room().covers(
                old(self).world().subdivide_room(selection@).0,
                old(self).world().subdivide_room(selection@).1,
                old(self).world().subdivide_room(selection@).2,
            ),
        ensures
            old(self).world().subdivided_as(selection@, final(self).world(), subdivision_view(r)),
            final(self).room().within(
                old(self).room(),
                old(self).world().subdivide_room(selection@).0,
                old(self).world().subdivide_room(selection@).1,
                old(self).world().subdivide_room(selection@).2,
            ),
            old(self).graph().paired() ==> final(self).graph().paired(),
    {
        let ghost w = self.world();
        let ghost picked = selection@;
        let r = self.subdivide_exact(selection);
        proof {
            if w.g.paired() {
                match subdivision_view(r) {
                    Err(e) => {
                        w.law_subdivision_keeps_pairs(
                            picked,
                            self.world(),
                            Err::<Harvest, SMeshError>(e),
                        );
                    },
                    Ok(s) => {
                        let done = choose|done: Seq<HalfedgeId>| #[trigger]
                            w.subdivided_and_done(picked, self.world(), done, s.0, s.1);
                        w.law_subdivision_keeps_pairs(
                            picked,
                            self.world(),
                            Ok::<Harvest, SMeshError>(
                                Harvest { done, picks: s.0, placements: s.1 },
                            ),
                        );
                    },
                }
            }
        }
        r
    }
}

} // verus!
